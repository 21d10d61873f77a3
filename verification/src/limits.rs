//! Finite resource bounds governing detection engine execution and output generation.

use vstd::prelude::*;
use crate::error::DetectionLimitsValidationError;

verus! {

/// Default maximum registered detectors.
pub const DEFAULT_MAX_REGISTERED_DETECTORS: usize = 64;
/// Hard maximum cap on registered detectors.
pub const HARD_MAX_REGISTERED_DETECTORS: usize = 256;
/// Default maximum parameters per detector.
pub const DEFAULT_MAX_PARAMETERS_PER_DETECTOR: usize = 32;
/// Hard maximum cap on parameters per detector.
pub const HARD_MAX_PARAMETERS_PER_DETECTOR: usize = 256;
/// Default maximum total findings.
pub const DEFAULT_MAX_TOTAL_FINDINGS: usize = 10_000;
/// Hard maximum cap on total findings.
pub const HARD_MAX_TOTAL_FINDINGS: usize = 100_000;
/// Default maximum total evidence records.
pub const DEFAULT_MAX_TOTAL_EVIDENCE: usize = 50_000;
/// Hard maximum cap on total evidence records.
pub const HARD_MAX_TOTAL_EVIDENCE: usize = 500_000;
/// Default maximum execution diagnostics.
pub const DEFAULT_MAX_DIAGNOSTICS: usize = 256;
/// Hard maximum cap on execution diagnostics.
pub const HARD_MAX_DIAGNOSTICS: usize = 4_096;

/// A limit value is accepted when it is positive and at most its hard maximum.
pub open spec fn limit_in_range(value: usize, hard_max: usize) -> bool {
    0 < value <= hard_max
}

/// All five limits are in range.
pub open spec fn limits_valid(
    detectors: usize,
    parameters: usize,
    findings: usize,
    evidence: usize,
    diagnostics: usize,
) -> bool {
    &&& limit_in_range(detectors, HARD_MAX_REGISTERED_DETECTORS)
    &&& limit_in_range(parameters, HARD_MAX_PARAMETERS_PER_DETECTOR)
    &&& limit_in_range(findings, HARD_MAX_TOTAL_FINDINGS)
    &&& limit_in_range(evidence, HARD_MAX_TOTAL_EVIDENCE)
    &&& limit_in_range(diagnostics, HARD_MAX_DIAGNOSTICS)
}

/// The error reported for one limit: zero, or above its hard maximum.
pub open spec fn limit_error(
    name: &'static str,
    value: usize,
    hard_max: usize,
) -> DetectionLimitsValidationError {
    if value == 0 {
        DetectionLimitsValidationError::ZeroLimit(name)
    } else {
        DetectionLimitsValidationError::LimitAboveHardMaximum {
            limit_name: name,
            attempted: value,
            max: hard_max,
        }
    }
}

/// The error for the first limit out of range, in the order detectors, parameters,
/// findings, evidence records, diagnostics.
pub open spec fn limits_error(
    detectors: usize,
    parameters: usize,
    findings: usize,
    evidence: usize,
    diagnostics: usize,
) -> DetectionLimitsValidationError {
    if !limit_in_range(detectors, HARD_MAX_REGISTERED_DETECTORS) {
        limit_error("max_registered_detectors", detectors, HARD_MAX_REGISTERED_DETECTORS)
    } else if !limit_in_range(parameters, HARD_MAX_PARAMETERS_PER_DETECTOR) {
        limit_error("max_parameters_per_detector", parameters, HARD_MAX_PARAMETERS_PER_DETECTOR)
    } else if !limit_in_range(findings, HARD_MAX_TOTAL_FINDINGS) {
        limit_error("max_total_findings", findings, HARD_MAX_TOTAL_FINDINGS)
    } else if !limit_in_range(evidence, HARD_MAX_TOTAL_EVIDENCE) {
        limit_error("max_total_evidence_records", evidence, HARD_MAX_TOTAL_EVIDENCE)
    } else {
        limit_error("max_execution_diagnostics", diagnostics, HARD_MAX_DIAGNOSTICS)
    }
}

fn check_limit(name: &'static str, value: usize, hard_max: usize) -> (r: Result<
    (),
    DetectionLimitsValidationError,
>)
    ensures
        r is Ok <==> limit_in_range(value, hard_max),
        r matches Err(e) ==> e == limit_error(name, value, hard_max),
{
    if value == 0 {
        return Err(DetectionLimitsValidationError::ZeroLimit(name));
    }
    if value > hard_max {
        return Err(
            DetectionLimitsValidationError::LimitAboveHardMaximum {
                limit_name: name,
                attempted: value,
                max: hard_max,
            },
        );
    }
    Ok(())
}

/// Finite resource bounds governing detection engine execution and output generation.
#[derive(Debug, Clone, Copy, PartialEq, Eq, Structural)]
pub struct DetectionLimits {
    max_registered_detectors: usize,
    max_parameters_per_detector: usize,
    max_total_findings: usize,
    max_total_evidence_records: usize,
    max_execution_diagnostics: usize,
}

impl DetectionLimits {
    /// The five limits, in declaration order.
    pub closed spec fn parts(&self) -> (usize, usize, usize, usize, usize) {
        (
            self.max_registered_detectors,
            self.max_parameters_per_detector,
            self.max_total_findings,
            self.max_total_evidence_records,
            self.max_execution_diagnostics,
        )
    }

    /// Limits with the same five values are the same limits.
    pub proof fn lemma_parts_determine(a: DetectionLimits, b: DetectionLimits)
        requires
            a.parts() == b.parts(),
        ensures
            a == b,
    {
    }

    /// Every constructed value is within range.
    #[verifier::type_invariant]
    closed spec fn inv(self) -> bool {
        limits_valid(
            self.max_registered_detectors,
            self.max_parameters_per_detector,
            self.max_total_findings,
            self.max_total_evidence_records,
            self.max_execution_diagnostics,
        )
    }

    /// Creates and validates new detection limits. Each limit must be positive and at
    /// most its hard maximum; the first offending limit in declaration order is reported.
    pub fn try_new(
        max_registered_detectors: usize,
        max_parameters_per_detector: usize,
        max_total_findings: usize,
        max_total_evidence_records: usize,
        max_execution_diagnostics: usize,
    ) -> (r: Result<DetectionLimits, DetectionLimitsValidationError>)
        ensures
            r is Ok <==> limits_valid(
                max_registered_detectors,
                max_parameters_per_detector,
                max_total_findings,
                max_total_evidence_records,
                max_execution_diagnostics,
            ),
            r matches Ok(l) ==> l.parts() == (
                max_registered_detectors,
                max_parameters_per_detector,
                max_total_findings,
                max_total_evidence_records,
                max_execution_diagnostics,
            ),
            r matches Err(e) ==> e == limits_error(
                max_registered_detectors,
                max_parameters_per_detector,
                max_total_findings,
                max_total_evidence_records,
                max_execution_diagnostics,
            ),
            !limit_in_range(max_registered_detectors, HARD_MAX_REGISTERED_DETECTORS) ==> r
                == Err::<DetectionLimits, DetectionLimitsValidationError>(
                limit_error(
                    "max_registered_detectors",
                    max_registered_detectors,
                    HARD_MAX_REGISTERED_DETECTORS,
                ),
            ),
            limit_in_range(max_registered_detectors, HARD_MAX_REGISTERED_DETECTORS)
                && !limit_in_range(max_parameters_per_detector, HARD_MAX_PARAMETERS_PER_DETECTOR)
                ==> r == Err::<DetectionLimits, DetectionLimitsValidationError>(
                limit_error(
                    "max_parameters_per_detector",
                    max_parameters_per_detector,
                    HARD_MAX_PARAMETERS_PER_DETECTOR,
                ),
            ),
            limit_in_range(max_registered_detectors, HARD_MAX_REGISTERED_DETECTORS)
                && limit_in_range(max_parameters_per_detector, HARD_MAX_PARAMETERS_PER_DETECTOR)
                && !limit_in_range(max_total_findings, HARD_MAX_TOTAL_FINDINGS) ==> r == Err::<
                DetectionLimits,
                DetectionLimitsValidationError,
            >(limit_error("max_total_findings", max_total_findings, HARD_MAX_TOTAL_FINDINGS)),
            limit_in_range(max_registered_detectors, HARD_MAX_REGISTERED_DETECTORS)
                && limit_in_range(max_parameters_per_detector, HARD_MAX_PARAMETERS_PER_DETECTOR)
                && limit_in_range(max_total_findings, HARD_MAX_TOTAL_FINDINGS) && !limit_in_range(
                max_total_evidence_records,
                HARD_MAX_TOTAL_EVIDENCE,
            ) ==> r == Err::<DetectionLimits, DetectionLimitsValidationError>(
                limit_error(
                    "max_total_evidence_records",
                    max_total_evidence_records,
                    HARD_MAX_TOTAL_EVIDENCE,
                ),
            ),
            limit_in_range(max_registered_detectors, HARD_MAX_REGISTERED_DETECTORS)
                && limit_in_range(max_parameters_per_detector, HARD_MAX_PARAMETERS_PER_DETECTOR)
                && limit_in_range(max_total_findings, HARD_MAX_TOTAL_FINDINGS) && limit_in_range(
                max_total_evidence_records,
                HARD_MAX_TOTAL_EVIDENCE,
            ) && !limit_in_range(max_execution_diagnostics, HARD_MAX_DIAGNOSTICS) ==> r == Err::<
                DetectionLimits,
                DetectionLimitsValidationError,
            >(
                limit_error(
                    "max_execution_diagnostics",
                    max_execution_diagnostics,
                    HARD_MAX_DIAGNOSTICS,
                ),
            ),
    {
        check_limit("max_registered_detectors", max_registered_detectors, HARD_MAX_REGISTERED_DETECTORS)?;
        check_limit(
            "max_parameters_per_detector",
            max_parameters_per_detector,
            HARD_MAX_PARAMETERS_PER_DETECTOR,
        )?;
        check_limit("max_total_findings", max_total_findings, HARD_MAX_TOTAL_FINDINGS)?;
        check_limit("max_total_evidence_records", max_total_evidence_records, HARD_MAX_TOTAL_EVIDENCE)?;
        check_limit("max_execution_diagnostics", max_execution_diagnostics, HARD_MAX_DIAGNOSTICS)?;
        Ok(
            DetectionLimits {
                max_registered_detectors,
                max_parameters_per_detector,
                max_total_findings,
                max_total_evidence_records,
                max_execution_diagnostics,
            },
        )
    }

    /// Returns a builder for configuring [`DetectionLimits`], starting from the defaults.
    pub fn builder() -> (b: DetectionLimitsBuilder)
        ensures
            b.parts() == default_parts(),
    {
        DetectionLimitsBuilder::new()
    }

    /// Creates default detection limits.
    pub fn default_limits() -> (l: DetectionLimits)
        ensures
            l.parts() == default_parts(),
    {
        DetectionLimits {
            max_registered_detectors: DEFAULT_MAX_REGISTERED_DETECTORS,
            max_parameters_per_detector: DEFAULT_MAX_PARAMETERS_PER_DETECTOR,
            max_total_findings: DEFAULT_MAX_TOTAL_FINDINGS,
            max_total_evidence_records: DEFAULT_MAX_TOTAL_EVIDENCE,
            max_execution_diagnostics: DEFAULT_MAX_DIAGNOSTICS,
        }
    }

    /// Returns the maximum allowed registered detectors.
    pub fn max_registered_detectors(&self) -> (v: usize)
        ensures
            v == self.parts().0,
            limit_in_range(v, HARD_MAX_REGISTERED_DETECTORS),
    {
        proof { use_type_invariant(self); }
        self.max_registered_detectors
    }

    /// Returns the maximum allowed parameters per detector.
    pub fn max_parameters_per_detector(&self) -> (v: usize)
        ensures
            v == self.parts().1,
            limit_in_range(v, HARD_MAX_PARAMETERS_PER_DETECTOR),
    {
        proof { use_type_invariant(self); }
        self.max_parameters_per_detector
    }

    /// Returns the maximum total findings per run.
    pub fn max_total_findings(&self) -> (v: usize)
        ensures
            v == self.parts().2,
            limit_in_range(v, HARD_MAX_TOTAL_FINDINGS),
    {
        proof { use_type_invariant(self); }
        self.max_total_findings
    }

    /// Returns the maximum total evidence records per run.
    pub fn max_total_evidence_records(&self) -> (v: usize)
        ensures
            v == self.parts().3,
            limit_in_range(v, HARD_MAX_TOTAL_EVIDENCE),
    {
        proof { use_type_invariant(self); }
        self.max_total_evidence_records
    }

    /// Returns the maximum diagnostic messages collected per run.
    pub fn max_execution_diagnostics(&self) -> (v: usize)
        ensures
            v == self.parts().4,
            limit_in_range(v, HARD_MAX_DIAGNOSTICS),
    {
        proof { use_type_invariant(self); }
        self.max_execution_diagnostics
    }
}

impl Default for DetectionLimits {
    fn default() -> (l: Self)
        ensures
            l.parts() == default_parts(),
    {
        Self::default_limits()
    }
}

/// The default limits, in declaration order.
pub open spec fn default_parts() -> (usize, usize, usize, usize, usize) {
    (
        DEFAULT_MAX_REGISTERED_DETECTORS,
        DEFAULT_MAX_PARAMETERS_PER_DETECTOR,
        DEFAULT_MAX_TOTAL_FINDINGS,
        DEFAULT_MAX_TOTAL_EVIDENCE,
        DEFAULT_MAX_DIAGNOSTICS,
    )
}

/// Builder for constructing validated [`DetectionLimits`] instances.
#[derive(Debug, Clone, Copy)]
pub struct DetectionLimitsBuilder {
    max_registered_detectors: usize,
    max_parameters_per_detector: usize,
    max_total_findings: usize,
    max_total_evidence_records: usize,
    max_execution_diagnostics: usize,
}

impl DetectionLimitsBuilder {
    /// The five configured values, in declaration order.
    pub closed spec fn parts(&self) -> (usize, usize, usize, usize, usize) {
        (
            self.max_registered_detectors,
            self.max_parameters_per_detector,
            self.max_total_findings,
            self.max_total_evidence_records,
            self.max_execution_diagnostics,
        )
    }

    /// Builders with the same five values are the same builder.
    pub proof fn lemma_parts_determine(a: DetectionLimitsBuilder, b: DetectionLimitsBuilder)
        requires
            a.parts() == b.parts(),
        ensures
            a == b,
    {
    }

    /// Creates a builder initialized with default limits.
    pub fn new() -> (b: DetectionLimitsBuilder)
        ensures
            b.parts() == default_parts(),
    {
        DetectionLimitsBuilder {
            max_registered_detectors: DEFAULT_MAX_REGISTERED_DETECTORS,
            max_parameters_per_detector: DEFAULT_MAX_PARAMETERS_PER_DETECTOR,
            max_total_findings: DEFAULT_MAX_TOTAL_FINDINGS,
            max_total_evidence_records: DEFAULT_MAX_TOTAL_EVIDENCE,
            max_execution_diagnostics: DEFAULT_MAX_DIAGNOSTICS,
        }
    }

    /// Sets the maximum registered detectors limit.
    pub fn max_registered_detectors(self, limit: usize) -> (b: DetectionLimitsBuilder)
        ensures
            b.parts() == (limit, self.parts().1, self.parts().2, self.parts().3, self.parts().4),
    {
        DetectionLimitsBuilder { max_registered_detectors: limit, ..self }
    }

    /// Sets the maximum parameters per detector limit.
    pub fn max_parameters_per_detector(self, limit: usize) -> (b: DetectionLimitsBuilder)
        ensures
            b.parts() == (self.parts().0, limit, self.parts().2, self.parts().3, self.parts().4),
    {
        DetectionLimitsBuilder { max_parameters_per_detector: limit, ..self }
    }

    /// Sets the maximum total findings limit.
    pub fn max_total_findings(self, limit: usize) -> (b: DetectionLimitsBuilder)
        ensures
            b.parts() == (self.parts().0, self.parts().1, limit, self.parts().3, self.parts().4),
    {
        DetectionLimitsBuilder { max_total_findings: limit, ..self }
    }

    /// Sets the maximum total evidence records limit.
    pub fn max_total_evidence_records(self, limit: usize) -> (b: DetectionLimitsBuilder)
        ensures
            b.parts() == (self.parts().0, self.parts().1, self.parts().2, limit, self.parts().4),
    {
        DetectionLimitsBuilder { max_total_evidence_records: limit, ..self }
    }

    /// Sets the maximum execution diagnostics limit.
    pub fn max_execution_diagnostics(self, limit: usize) -> (b: DetectionLimitsBuilder)
        ensures
            b.parts() == (self.parts().0, self.parts().1, self.parts().2, self.parts().3, limit),
    {
        DetectionLimitsBuilder { max_execution_diagnostics: limit, ..self }
    }

    /// Builds and validates the [`DetectionLimits`] exactly as [`DetectionLimits::try_new`] does.
    pub fn build(self) -> (r: Result<DetectionLimits, DetectionLimitsValidationError>)
        ensures
            r is Ok <==> limits_valid(
                self.parts().0,
                self.parts().1,
                self.parts().2,
                self.parts().3,
                self.parts().4,
            ),
            r matches Ok(l) ==> l.parts() == self.parts(),
            r matches Err(e) ==> e == limits_error(
                self.parts().0,
                self.parts().1,
                self.parts().2,
                self.parts().3,
                self.parts().4,
            ),
    {
        DetectionLimits::try_new(
            self.max_registered_detectors,
            self.max_parameters_per_detector,
            self.max_total_findings,
            self.max_total_evidence_records,
            self.max_execution_diagnostics,
        )
    }
}

impl Default for DetectionLimitsBuilder {
    fn default() -> (b: Self)
        ensures
            b.parts() == default_parts(),
    {
        Self::new()
    }
}

} // verus!

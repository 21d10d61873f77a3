//! Borrowed, immutable, validated detection input.

use vstd::prelude::*;
use crate::domain::{observation_lt, EvidenceLimitation};
use crate::error::DetectionInputError;
use crate::flow::{FlowRecord, ProtocolObservation};
use crate::domain::FlowReference;

verus! {

/// Completeness status of the domain facts provided to the detection engine.
#[derive(Debug, Clone, Copy, PartialEq, Eq, Structural, Hash)]
pub enum DetectionInputCompleteness {
    /// Complete traffic analysis without truncation or budget exhaustion.
    Complete,
    /// Partial traffic analysis due to capture truncation, frame exclusions, or resource bounds.
    Partial,
}

impl DetectionInputCompleteness {
    /// Returns `true` if input analysis is complete.
    pub fn is_complete(&self) -> (b: bool)
        ensures
            b == (*self == DetectionInputCompleteness::Complete),
    {
        match self {
            DetectionInputCompleteness::Complete => true,
            DetectionInputCompleteness::Partial => false,
        }
    }

    /// Returns `true` if input analysis is partial.
    pub fn is_partial(&self) -> (b: bool)
        ensures
            b == (*self == DetectionInputCompleteness::Partial),
    {
        match self {
            DetectionInputCompleteness::Complete => false,
            DetectionInputCompleteness::Partial => true,
        }
    }

    /// Label of the completeness state.
    pub fn as_str(&self) -> (s: &'static str)
        ensures
            s@ == (match *self {
                DetectionInputCompleteness::Complete => "Complete"@,
                DetectionInputCompleteness::Partial => "Partial"@,
            }),
    {
        match self {
            DetectionInputCompleteness::Complete => "Complete",
            DetectionInputCompleteness::Partial => "Partial",
        }
    }
}

/// Analysis limitation affecting the completeness of detection input data.
#[derive(Debug, Clone, Copy, PartialEq, Eq, Structural, Hash)]
pub enum DetectionInputLimitation {
    /// Capture container or record bytes were truncated.
    CaptureTruncated,
    /// Configured packet analysis budget was reached.
    PacketCountBudgetReached,
    /// Configured flow capacity was reached.
    FlowBudgetReached,
    /// Configured observation capacity was reached.
    ObservationBudgetReached,
}

/// Canonical rank of a limitation (declaration order).
pub open spec fn limitation_rank(l: DetectionInputLimitation) -> nat {
    match l {
        DetectionInputLimitation::CaptureTruncated => 0,
        DetectionInputLimitation::PacketCountBudgetReached => 1,
        DetectionInputLimitation::FlowBudgetReached => 2,
        DetectionInputLimitation::ObservationBudgetReached => 3,
    }
}

/// The evidence limitation corresponding to an input limitation.
pub open spec fn evidence_limitation_of(l: DetectionInputLimitation) -> EvidenceLimitation {
    match l {
        DetectionInputLimitation::CaptureTruncated => EvidenceLimitation::CaptureTruncated,
        DetectionInputLimitation::PacketCountBudgetReached => EvidenceLimitation::PacketCountBudgetReached,
        DetectionInputLimitation::FlowBudgetReached => EvidenceLimitation::FlowBudgetReached,
        DetectionInputLimitation::ObservationBudgetReached => EvidenceLimitation::ObservationBudgetReached,
    }
}

impl DetectionInputLimitation {
    /// Canonical rank (declaration order).
    pub fn rank(&self) -> (r: u8)
        ensures
            r == limitation_rank(*self),
    {
        match self {
            DetectionInputLimitation::CaptureTruncated => 0,
            DetectionInputLimitation::PacketCountBudgetReached => 1,
            DetectionInputLimitation::FlowBudgetReached => 2,
            DetectionInputLimitation::ObservationBudgetReached => 3,
        }
    }

    /// Maps this detection input limitation to the corresponding evidence limitation.
    pub fn to_evidence_limitation(&self) -> (e: EvidenceLimitation)
        ensures
            e == evidence_limitation_of(*self),
    {
        match self {
            DetectionInputLimitation::CaptureTruncated => EvidenceLimitation::CaptureTruncated,
            DetectionInputLimitation::PacketCountBudgetReached => EvidenceLimitation::PacketCountBudgetReached,
            DetectionInputLimitation::FlowBudgetReached => EvidenceLimitation::FlowBudgetReached,
            DetectionInputLimitation::ObservationBudgetReached => EvidenceLimitation::ObservationBudgetReached,
        }
    }

    /// Label of the limitation.
    pub fn as_str(&self) -> (s: &'static str)
        ensures
            s@ == crate::error::limitation_name(*self),
    {
        match self {
            DetectionInputLimitation::CaptureTruncated => "CaptureTruncated",
            DetectionInputLimitation::PacketCountBudgetReached => "PacketCountBudgetReached",
            DetectionInputLimitation::FlowBudgetReached => "FlowBudgetReached",
            DetectionInputLimitation::ObservationBudgetReached => "ObservationBudgetReached",
        }
    }
}

/// The flow at `i` has a strictly smaller reference ordinal than the flow at `i + 1`.
pub open spec fn flow_step_increases(s: Seq<FlowRecord>, i: int) -> bool {
    s[i].reference.ordinal < s[i + 1].reference.ordinal
}

/// Flow references strictly increase along the sequence.
pub open spec fn flows_sorted(s: Seq<FlowRecord>) -> bool {
    forall|i: int| 0 <= i < s.len() - 1 ==> #[trigger] flow_step_increases(s, i)
}

/// Observation references strictly increase along the sequence.
pub open spec fn observations_sorted(s: Seq<ProtocolObservation>) -> bool {
    forall|i: int|
        0 <= i < s.len() - 1 ==> #[trigger] observation_lt(s[i].reference, s[i + 1].reference)
}

/// Limitations strictly increase along the sequence.
pub open spec fn limitations_sorted(s: Seq<DetectionInputLimitation>) -> bool {
    forall|i: int|
        0 <= i < s.len() - 1 ==> #[trigger] limitation_rank(s[i]) < limitation_rank(s[i + 1])
}

/// Position `i` is the first where flow ordinals fail to increase.
pub open spec fn first_flow_break(s: Seq<FlowRecord>, i: int) -> bool {
    &&& 0 <= i < s.len() - 1
    &&& !flow_step_increases(s, i)
    &&& forall|j: int| 0 <= j < i ==> #[trigger] flow_step_increases(s, j)
}

/// Position `i` is the first where observation references fail to increase.
pub open spec fn first_observation_break(s: Seq<ProtocolObservation>, i: int) -> bool {
    &&& 0 <= i < s.len() - 1
    &&& !observation_lt(s[i].reference, s[i + 1].reference)
    &&& forall|j: int| 0 <= j < i ==> #[trigger] observation_lt(s[j].reference, s[j + 1].reference)
}

/// Position `i` is the first where limitation ranks fail to increase.
pub open spec fn first_limitation_break(s: Seq<DetectionInputLimitation>, i: int) -> bool {
    &&& 0 <= i < s.len() - 1
    &&& !(limitation_rank(s[i]) < limitation_rank(s[i + 1]))
    &&& forall|j: int| 0 <= j < i ==> #[trigger] limitation_rank(s[j]) < limitation_rank(s[j + 1])
}

/// The error for input parts that are not valid: the first violation among the flows, then
/// the observations, then the limitations, then the agreement of completeness and
/// limitations. A repeated entry is a duplicate; one that sorts before its predecessor is out
/// of order.
pub open spec fn input_error(
    flows: Seq<FlowRecord>,
    observations: Seq<ProtocolObservation>,
    completeness: DetectionInputCompleteness,
    limitations: Seq<DetectionInputLimitation>,
) -> DetectionInputError {
    if !flows_sorted(flows) {
        let i = choose|i: int| first_flow_break(flows, i);
        if flows[i].reference.ordinal == flows[i + 1].reference.ordinal {
            DetectionInputError::DuplicateFlow(flows[i + 1].reference)
        } else {
            DetectionInputError::OutOfOrderFlow {
                previous: flows[i].reference.ordinal,
                attempted: flows[i + 1].reference.ordinal,
            }
        }
    } else if !observations_sorted(observations) {
        let i = choose|i: int| first_observation_break(observations, i);
        if observations[i].reference == observations[i + 1].reference {
            DetectionInputError::DuplicateObservation(observations[i + 1].reference)
        } else {
            DetectionInputError::OutOfOrderObservation {
                previous: observations[i].reference,
                attempted: observations[i + 1].reference,
            }
        }
    } else if !limitations_sorted(limitations) {
        let i = choose|i: int| first_limitation_break(limitations, i);
        if limitations[i] == limitations[i + 1] {
            DetectionInputError::DuplicateLimitation(limitations[i + 1])
        } else {
            DetectionInputError::OutOfOrderLimitation { previous: limitations[i], attempted: limitations[i + 1] }
        }
    } else if completeness == DetectionInputCompleteness::Complete {
        DetectionInputError::CompleteInputWithLimitations
    } else {
        DetectionInputError::PartialInputWithoutLimitations
    }
}

/// The first flow break is the one `choose` picks.
proof fn lemma_first_flow_break_unique(s: Seq<FlowRecord>, i: int)
    requires
        first_flow_break(s, i),
    ensures
        !flows_sorted(s),
        (choose|k: int| first_flow_break(s, k)) == i,
{
    assert(!flows_sorted(s)) by {
        assert(!flow_step_increases(s, i));
    }
    let k = choose|k: int| first_flow_break(s, k);
    assert(first_flow_break(s, k));
    if k < i {
        assert(flow_step_increases(s, k));
    } else if k > i {
        assert(flow_step_increases(s, i));
    }
}

/// The first observation break is the one `choose` picks.
proof fn lemma_first_observation_break_unique(s: Seq<ProtocolObservation>, i: int)
    requires
        first_observation_break(s, i),
    ensures
        !observations_sorted(s),
        (choose|k: int| first_observation_break(s, k)) == i,
{
    let k = choose|k: int| first_observation_break(s, k);
    assert(first_observation_break(s, k));
    if k < i {
        assert(observation_lt(s[k].reference, s[k + 1].reference));
    } else if k > i {
        assert(observation_lt(s[i].reference, s[i + 1].reference));
    }
}

/// The first limitation break is the one `choose` picks.
proof fn lemma_first_limitation_break_unique(s: Seq<DetectionInputLimitation>, i: int)
    requires
        first_limitation_break(s, i),
    ensures
        !limitations_sorted(s),
        (choose|k: int| first_limitation_break(s, k)) == i,
{
    let k = choose|k: int| first_limitation_break(s, k);
    assert(first_limitation_break(s, k));
    if k < i {
        assert(limitation_rank(s[k]) < limitation_rank(s[k + 1]));
    } else if k > i {
        assert(limitation_rank(s[i]) < limitation_rank(s[i + 1]));
    }
}

/// Completeness and limitations agree: complete input has none, partial input has some.
pub open spec fn completeness_consistent(
    c: DetectionInputCompleteness,
    l: Seq<DetectionInputLimitation>,
) -> bool {
    (c == DetectionInputCompleteness::Complete) == (l.len() == 0)
}

/// All validation conditions of a detection input.
pub open spec fn valid_input_parts(
    flows: Seq<FlowRecord>,
    observations: Seq<ProtocolObservation>,
    completeness: DetectionInputCompleteness,
    limitations: Seq<DetectionInputLimitation>,
) -> bool {
    &&& flows_sorted(flows)
    &&& observations_sorted(observations)
    &&& limitations_sorted(limitations)
    &&& completeness_consistent(completeness, limitations)
}


/// Strictly increasing neighbours give strictly increasing pairs.
pub proof fn lemma_flows_pairwise(s: Seq<FlowRecord>, i: int, j: int)
    requires
        flows_sorted(s),
        0 <= i < j < s.len(),
    ensures
        s[i].reference.ordinal < s[j].reference.ordinal,
    decreases j - i,
{
    assert(flow_step_increases(s, j - 1));
    if i < j - 1 {
        lemma_flows_pairwise(s, i, j - 1);
    }
}

/// Finds the position of the flow with the given reference by binary search.
pub fn find_flow(flows: &[FlowRecord], reference: FlowReference) -> (r: Option<usize>)
    requires
        flows_sorted(flows@),
    ensures
        r matches Some(i) ==> i < flows@.len() && flows@[i as int].reference == reference,
        r is None ==> forall|j: int| 0 <= j < flows@.len() ==> (#[trigger] flows@[j]).reference != reference,
{
    let mut lo: usize = 0;
    let mut hi: usize = flows.len();
    while lo < hi
        invariant
            flows_sorted(flows@),
            lo <= hi <= flows@.len(),
            forall|j: int| 0 <= j < lo ==> (#[trigger] flows@[j]).reference.ordinal < reference.ordinal,
            forall|j: int| hi <= j < flows@.len() ==> (#[trigger] flows@[j]).reference.ordinal > reference.ordinal,
        decreases hi - lo,
    {
        let mid = lo + (hi - lo) / 2;
        let o = flows[mid].reference.ordinal;
        if o == reference.ordinal {
            return Some(mid);
        } else if o < reference.ordinal {
            proof {
                assert forall|j: int| 0 <= j < mid + 1 implies (#[trigger] flows@[j]).reference.ordinal < reference.ordinal by {
                    if j < mid {
                        lemma_flows_pairwise(flows@, j, mid as int);
                    }
                }
            }
            lo = mid + 1;
        } else {
            proof {
                assert forall|j: int| mid <= j < flows@.len() implies (#[trigger] flows@[j]).reference.ordinal > reference.ordinal by {
                    if j > mid {
                        lemma_flows_pairwise(flows@, mid as int, j);
                    }
                }
            }
            hi = mid;
        }
    }
    None
}

/// Borrowed, immutable normalized domain input for detection.
///
/// Contains only normalized facts; never exposes raw packet bytes or parser state.
#[derive(Debug, Clone, Copy)]
pub struct DetectionInput<'a> {
    flows: &'a [FlowRecord],
    observations: &'a [ProtocolObservation],
    completeness: DetectionInputCompleteness,
    limitations: &'a [DetectionInputLimitation],
}

impl<'a> DetectionInput<'a> {
    /// The flows.
    pub closed spec fn flows_view(&self) -> Seq<FlowRecord> {
        self.flows@
    }

    /// The observations.
    pub closed spec fn observations_view(&self) -> Seq<ProtocolObservation> {
        self.observations@
    }

    /// The completeness state.
    pub closed spec fn completeness_view(&self) -> DetectionInputCompleteness {
        self.completeness
    }

    /// The limitations.
    pub closed spec fn limitations_view(&self) -> Seq<DetectionInputLimitation> {
        self.limitations@
    }

    /// Every constructed input satisfies the validation conditions.
    #[verifier::type_invariant]
    closed spec fn inv(self) -> bool {
        valid_input_parts(self.flows@, self.observations@, self.completeness, self.limitations@)
    }

    /// Creates and validates a new borrowed detection input.
    ///
    /// Flows must strictly increase by reference ordinal, observations by canonical
    /// reference order, limitations by rank; complete input carries no limitation and
    /// partial input at least one. The first violation found, in that order, is reported.
    pub fn try_new(
        flows: &'a [FlowRecord],
        observations: &'a [ProtocolObservation],
        completeness: DetectionInputCompleteness,
        limitations: &'a [DetectionInputLimitation],
    ) -> (r: Result<DetectionInput<'a>, DetectionInputError>)
        ensures
            r is Ok <==> valid_input_parts(flows@, observations@, completeness, limitations@),
            r matches Ok(inp) ==> inp.flows_view() == flows@ && inp.observations_view()
                == observations@ && inp.completeness_view() == completeness
                && inp.limitations_view() == limitations@,
            r matches Err(e) ==> e == input_error(flows@, observations@, completeness, limitations@),
            !flows_sorted(flows@) ==> (r matches Err(DetectionInputError::DuplicateFlow(_))
                || r matches Err(DetectionInputError::OutOfOrderFlow { .. })),
            flows_sorted(flows@) && !observations_sorted(observations@) ==> (r matches Err(
                DetectionInputError::DuplicateObservation(_),
            ) || r matches Err(DetectionInputError::OutOfOrderObservation { .. })),
            flows_sorted(flows@) && observations_sorted(observations@) && !limitations_sorted(
                limitations@,
            ) ==> (r matches Err(DetectionInputError::DuplicateLimitation(_)) || r matches Err(
                DetectionInputError::OutOfOrderLimitation { .. },
            )),
            r matches Err(DetectionInputError::DuplicateFlow(f)) ==> exists|i: int|
                0 <= i < flows@.len() - 1 && (#[trigger] flows@[i]).reference.ordinal == flows@[i
                    + 1].reference.ordinal && f == flows@[i + 1].reference,
            r matches Err(DetectionInputError::OutOfOrderFlow { previous, attempted }) ==> exists|
                i: int,
            |
                0 <= i < flows@.len() - 1 && previous == (#[trigger] flows@[i]).reference.ordinal && attempted
                    == flows@[i + 1].reference.ordinal && attempted < previous,
            r matches Err(DetectionInputError::CompleteInputWithLimitations) ==> completeness
                == DetectionInputCompleteness::Complete && limitations@.len() > 0,
            r matches Err(DetectionInputError::PartialInputWithoutLimitations) ==> completeness
                == DetectionInputCompleteness::Partial && limitations@.len() == 0,
    {
        let nf = flows.len();
        let mut i: usize = 0;
        while i < nf && i + 1 < nf
            invariant
                nf == flows@.len(),
                forall|j: int| 0 <= j < i && j < nf - 1 ==> #[trigger] flow_step_increases(flows@, j),
            decreases nf - i,
        {
            let prev = flows[i].reference.ordinal;
            let curr = flows[i + 1].reference.ordinal;
            if curr == prev {
                assert(!flow_step_increases(flows@, i as int));
                proof { lemma_first_flow_break_unique(flows@, i as int); }
                return Err(DetectionInputError::DuplicateFlow(flows[i + 1].reference));
            }
            if curr < prev {
                assert(!flow_step_increases(flows@, i as int));
                proof { lemma_first_flow_break_unique(flows@, i as int); }
                return Err(DetectionInputError::OutOfOrderFlow { previous: prev, attempted: curr });
            }
            i = i + 1;
        }
        let no = observations.len();
        let mut k: usize = 0;
        while k < no && k + 1 < no
            invariant
                no == observations@.len(),
                flows_sorted(flows@),
                forall|j: int|
                    0 <= j < k && j < no - 1 ==> #[trigger] observation_lt(
                        observations@[j].reference,
                        observations@[j + 1].reference,
                    ),
            decreases no - k,
        {
            let prev = observations[k].reference;
            let curr = observations[k + 1].reference;
            if curr == prev {
                assert(!observation_lt(
                    observations@[k as int].reference,
                    observations@[k + 1].reference,
                ));
                proof { lemma_first_observation_break_unique(observations@, k as int); }
                return Err(DetectionInputError::DuplicateObservation(curr));
            }
            if !prev.lt(&curr) {
                proof { lemma_first_observation_break_unique(observations@, k as int); }
                return Err(DetectionInputError::OutOfOrderObservation { previous: prev, attempted: curr });
            }
            k = k + 1;
        }
        let nl = limitations.len();
        let mut m: usize = 0;
        while m < nl && m + 1 < nl
            invariant
                nl == limitations@.len(),
                flows_sorted(flows@),
                observations_sorted(observations@),
                forall|j: int|
                    0 <= j < m && j < nl - 1 ==> #[trigger] limitation_rank(limitations@[j])
                        < limitation_rank(limitations@[j + 1]),
            decreases nl - m,
        {
            let prev = limitations[m];
            let curr = limitations[m + 1];
            if curr == prev {
                assert(!(limitation_rank(limitations@[m as int]) < limitation_rank(
                    limitations@[m + 1],
                )));
                proof { lemma_first_limitation_break_unique(limitations@, m as int); }
                return Err(DetectionInputError::DuplicateLimitation(curr));
            }
            if curr.rank() < prev.rank() {
                proof { lemma_first_limitation_break_unique(limitations@, m as int); }
                return Err(DetectionInputError::OutOfOrderLimitation { previous: prev, attempted: curr });
            }
            proof {
                if limitation_rank(curr) == limitation_rank(prev) {
                    assert(curr == prev);
                }
            }
            m = m + 1;
        }
        match completeness {
            DetectionInputCompleteness::Complete => {
                if nl != 0 {
                    return Err(DetectionInputError::CompleteInputWithLimitations);
                }
            },
            DetectionInputCompleteness::Partial => {
                if nl == 0 {
                    return Err(DetectionInputError::PartialInputWithoutLimitations);
                }
            },
        }
        Ok(DetectionInput { flows, observations, completeness, limitations })
    }

    /// Returns the slice of reconstructed flows.
    pub fn flows(&self) -> (s: &'a [FlowRecord])
        ensures
            s@ == self.flows_view(),
            flows_sorted(s@),
    {
        proof { use_type_invariant(self); }
        self.flows
    }

    /// Returns the slice of normalized protocol observations.
    pub fn observations(&self) -> (s: &'a [ProtocolObservation])
        ensures
            s@ == self.observations_view(),
            observations_sorted(s@),
    {
        proof { use_type_invariant(self); }
        self.observations
    }

    /// Returns the completeness state of the input analysis.
    pub fn completeness(&self) -> (c: DetectionInputCompleteness)
        ensures
            c == self.completeness_view(),
            completeness_consistent(c, self.limitations_view()),
    {
        proof { use_type_invariant(self); }
        self.completeness
    }

    /// Returns the slice of input analysis limitations.
    pub fn limitations(&self) -> (s: &'a [DetectionInputLimitation])
        ensures
            s@ == self.limitations_view(),
            limitations_sorted(s@),
    {
        proof { use_type_invariant(self); }
        self.limitations
    }
}

} // verus!

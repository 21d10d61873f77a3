//! Detector trait, metadata contracts, incomplete data policies, and the bounded draft sink.

use vstd::prelude::*;
use crate::config::{DetectorParameters, ParameterView};
use crate::domain::{
    DetectorId, DetectorVersion, FindingDraft, MitreMappingDeclaration,
    HARD_MAX_MITRE_MAPPINGS_PER_FINDING,
};
use crate::error::{sanitized_message, DetectorConfigError, DetectorExecutionError, DetectorRegistryError};
use crate::input::DetectionInput;
use crate::text::{text_lt, Order};
use crate::views::{draft_view, draft_views, lemma_view_evidence_total_append, view_evidence_total, DraftView};

verus! {

broadcast use vstd::string::group_string_axioms;

/// Policy declared by a detector regarding execution over incomplete/partial traffic analysis.
#[derive(Debug, Clone, Copy, PartialEq, Eq, Structural, Hash)]
pub enum IncompleteDataPolicy {
    /// Skip evaluation entirely when input traffic analysis is partial.
    Skip,
    /// Allow evaluation on partial input, provided any emitted findings include supporting limitations.
    AllowWithLimitations,
}

impl IncompleteDataPolicy {
    /// Returns the static label for this policy.
    pub fn as_str(&self) -> (s: &'static str)
        ensures
            s@ == (match *self {
                IncompleteDataPolicy::Skip => "Skip"@,
                IncompleteDataPolicy::AllowWithLimitations => "AllowWithLimitations"@,
            }),
    {
        match self {
            IncompleteDataPolicy::Skip => "Skip",
            IncompleteDataPolicy::AllowWithLimitations => "AllowWithLimitations",
        }
    }
}

/// Technique identifiers of declarations strictly increase between neighbours.
pub open spec fn declarations_sorted(d: Seq<MitreMappingDeclaration>) -> bool {
    forall|i: int|
        0 <= i < d.len() - 1 ==> #[trigger] text_lt(d[i].technique_id@, d[i + 1].technique_id@)
}

/// Immutable metadata identifying a detector and its behavioral contract.
#[derive(Debug, PartialEq, Eq)]
pub struct DetectorMetadata {
    id: DetectorId,
    version: DetectorVersion,
    title: String,
    purpose: String,
    incomplete_data_policy: IncompleteDataPolicy,
    mitre_mapping_declarations: Vec<MitreMappingDeclaration>,
}

impl DetectorMetadata {
    /// The detector identifier.
    pub closed spec fn spec_id(&self) -> Seq<char> {
        self.id@
    }

    /// The detector version.
    pub closed spec fn spec_version(&self) -> DetectorVersion {
        self.version
    }

    /// The display title.
    pub closed spec fn spec_title(&self) -> Seq<char> {
        self.title@
    }

    /// The purpose summary.
    pub closed spec fn spec_purpose(&self) -> Seq<char> {
        self.purpose@
    }

    /// The incomplete data policy.
    pub closed spec fn spec_policy(&self) -> IncompleteDataPolicy {
        self.incomplete_data_policy
    }

    /// The MITRE ATT&CK mapping declarations.
    pub closed spec fn spec_declarations(&self) -> Seq<MitreMappingDeclaration> {
        self.mitre_mapping_declarations@
    }

    /// Declarations are bounded in number and strictly sorted by technique identifier.
    #[verifier::type_invariant]
    closed spec fn inv(self) -> bool {
        &&& self.mitre_mapping_declarations@.len() <= HARD_MAX_MITRE_MAPPINGS_PER_FINDING
        &&& declarations_sorted(self.mitre_mapping_declarations@)
    }

    /// Creates and validates new detector metadata: at most
    /// [`HARD_MAX_MITRE_MAPPINGS_PER_FINDING`] declarations, strictly sorted by technique.
    pub fn try_new(
        id: DetectorId,
        version: DetectorVersion,
        title: String,
        purpose: String,
        incomplete_data_policy: IncompleteDataPolicy,
        mitre_mapping_declarations: Vec<MitreMappingDeclaration>,
    ) -> (r: Result<DetectorMetadata, DetectorRegistryError>)
        ensures
            r is Ok <==> mitre_mapping_declarations@.len() <= HARD_MAX_MITRE_MAPPINGS_PER_FINDING
                && declarations_sorted(mitre_mapping_declarations@),
            r matches Ok(m) ==> m.spec_id() == id@ && m.spec_version() == version && m.spec_title() == title@
                && m.spec_purpose() == purpose@ && m.spec_policy() == incomplete_data_policy && m.spec_declarations()
                == mitre_mapping_declarations@,
            r matches Err(DetectorRegistryError::InvalidMitreMappingDeclarations {
                component_id,
                reason,
            }) ==> component_id@ == id@,
            r is Err ==> r matches Err(
                DetectorRegistryError::InvalidMitreMappingDeclarations { .. },
            ),
    {
        let n = mitre_mapping_declarations.len();
        if n > HARD_MAX_MITRE_MAPPINGS_PER_FINDING {
            return Err(
                DetectorRegistryError::InvalidMitreMappingDeclarations {
                    component_id: id,
                    reason: "MITRE ATT&CK mapping declarations count exceeds maximum limit",
                },
            );
        }
        let mut i: usize = 0;
        while i < n && i + 1 < n
            invariant
                n == mitre_mapping_declarations@.len(),
                n <= HARD_MAX_MITRE_MAPPINGS_PER_FINDING,
                forall|j: int|
                    0 <= j < i && j < n - 1 ==> #[trigger] text_lt(
                        mitre_mapping_declarations@[j].technique_id@,
                        mitre_mapping_declarations@[j + 1].technique_id@,
                    ),
            decreases n - i,
        {
            let o = mitre_mapping_declarations[i].technique_id.compare(
                &mitre_mapping_declarations[i + 1].technique_id,
            );
            match o {
                Order::Equal => {
                    proof {
                        crate::text::lemma_lex_lt_irreflexive(
                            crate::text::text_bytes(mitre_mapping_declarations@[i as int].technique_id@),
                        );
                    }
                    return Err(
                        DetectorRegistryError::InvalidMitreMappingDeclarations {
                            component_id: id,
                            reason: "duplicate MITRE ATT&CK mapping declaration technique ID",
                        },
                    );
                },
                Order::Greater => {
                    proof {
                        crate::text::lemma_lex_lt_asymmetric(
                            crate::text::text_bytes(mitre_mapping_declarations@[i + 1].technique_id@),
                            crate::text::text_bytes(mitre_mapping_declarations@[i as int].technique_id@),
                        );
                    }
                    return Err(
                        DetectorRegistryError::InvalidMitreMappingDeclarations {
                            component_id: id,
                            reason: "MITRE ATT&CK mapping declarations must be strictly sorted by technique ID",
                        },
                    );
                },
                Order::Less => {},
            }
            i = i + 1;
        }
        Ok(
            DetectorMetadata {
                id,
                version,
                title,
                purpose,
                incomplete_data_policy,
                mitre_mapping_declarations,
            },
        )
    }

    /// Creates new detector metadata without MITRE mapping declarations.
    pub fn new(
        id: DetectorId,
        version: DetectorVersion,
        title: String,
        purpose: String,
        incomplete_data_policy: IncompleteDataPolicy,
    ) -> (m: DetectorMetadata)
        ensures
            m.spec_id() == id@,
            m.spec_version() == version,
            m.spec_title() == title@,
            m.spec_purpose() == purpose@,
            m.spec_policy() == incomplete_data_policy,
            m.spec_declarations() == Seq::<MitreMappingDeclaration>::empty(),
    {
        DetectorMetadata {
            id,
            version,
            title,
            purpose,
            incomplete_data_policy,
            mitre_mapping_declarations: Vec::new(),
        }
    }

    /// Returns the unique detector identifier.
    pub fn id(&self) -> (r: &DetectorId)
        ensures
            r@ == self.spec_id(),
    {
        &self.id
    }

    /// Returns the detector version.
    pub fn version(&self) -> (v: DetectorVersion)
        ensures
            v == self.spec_version(),
    {
        self.version
    }

    /// Returns the detector display title.
    pub fn title(&self) -> (s: &str)
        ensures
            s@ == self.spec_title(),
    {
        self.title.as_str()
    }

    /// Returns the detector purpose summary.
    pub fn purpose(&self) -> (s: &str)
        ensures
            s@ == self.spec_purpose(),
    {
        self.purpose.as_str()
    }

    /// Returns the detector incomplete data policy.
    pub fn incomplete_data_policy(&self) -> (p: IncompleteDataPolicy)
        ensures
            p == self.spec_policy(),
    {
        self.incomplete_data_policy
    }

    /// Returns the declared MITRE mapping declarations.
    pub fn mitre_mapping_declarations(&self) -> (d: &[MitreMappingDeclaration])
        ensures
            d@ == self.spec_declarations(),
            d@.len() <= HARD_MAX_MITRE_MAPPINGS_PER_FINDING,
    {
        proof { use_type_invariant(self); }
        self.mitre_mapping_declarations.as_slice()
    }
}

/// Total number of evidence drafts across a sequence of finding drafts.
pub open spec fn total_evidence(s: Seq<FindingDraft>) -> nat
    decreases s.len(),
{
    if s.len() == 0 {
        0
    } else {
        total_evidence(s.drop_last()) + s.last().evidence@.len()
    }
}



/// The evidence total of a prefix grows by the evidence of the next draft.
pub proof fn lemma_total_evidence_prefix(s: Seq<FindingDraft>, k: int)
    requires
        0 < k <= s.len(),
    ensures
        total_evidence(s.take(k)) == total_evidence(s.take(k - 1)) + s[k - 1].evidence@.len(),
        total_evidence(s.take(k)) <= total_evidence(s),
    decreases s.len(),
{
    assert(s.take(k).drop_last() =~= s.take(k - 1));
    if k < s.len() {
        lemma_total_evidence_prefix(s.drop_last(), k);
        assert(s.drop_last().take(k) =~= s.take(k));
        assert(s.drop_last().take(k - 1) =~= s.take(k - 1));
    } else {
        assert(s.take(k) =~= s);
    }
}

proof fn lemma_total_evidence_remove(s: Seq<FindingDraft>, i: int)
    requires
        0 <= i < s.len(),
    ensures
        total_evidence(s) == total_evidence(s.remove(i)) + s[i].evidence@.len(),
    decreases s.len(),
{
    if i == s.len() - 1 {
        assert(s.remove(i) =~= s.drop_last());
    } else {
        lemma_total_evidence_remove(s.drop_last(), i);
        assert(s.remove(i).drop_last() =~= s.drop_last().remove(i));
        assert(s.remove(i).last() == s.last());
    }
}

/// Drafts holding the same drafts in another order have the same evidence total.
pub proof fn lemma_total_evidence_permutation(a: Seq<FindingDraft>, b: Seq<FindingDraft>)
    requires
        a.to_multiset() == b.to_multiset(),
    ensures
        total_evidence(a) == total_evidence(b),
    decreases a.len(),
{
    broadcast use {vstd::seq_lib::group_to_multiset_ensures, vstd::multiset::group_multiset_axioms};

    if a.len() == 0 {
        assert(b.to_multiset().len() == 0);
        assert(b.len() == 0);
    } else {
        let x = a.last();
        assert(a.drop_last().push(x) =~= a);
        assert(a.to_multiset().count(x) > 0);
        assert(b.to_multiset().count(x) > 0);
        assert(b.contains(x));
        let i = choose|i: int| 0 <= i < b.len() && b[i] == x;
        assert(b.remove(i).to_multiset() == b.to_multiset().remove(x));
        assert(a.drop_last().to_multiset() =~= a.to_multiset().remove(x));
        lemma_total_evidence_permutation(a.drop_last(), b.remove(i));
        lemma_total_evidence_remove(b, i);
    }
}

/// Evidence totals agree between drafts and their views.
pub proof fn lemma_total_evidence_views(s: Seq<FindingDraft>)
    ensures
        total_evidence(s) == view_evidence_total(draft_views(s)),
    decreases s.len(),
{
    if s.len() > 0 {
        lemma_total_evidence_views(s.drop_last());
        assert(draft_views(s).drop_last() =~= draft_views(s.drop_last()));
    }
}

/// What one evaluation step yields: `None` for an execution error, `Some(None)` when
/// nothing is emitted, `Some(Some(d))` when a finding with view `d` is emitted.
pub type StepOutcome = Option<Option<DraftView>>;

/// The findings emitted by a sequence of steps, in order; `None` if a step fails.
pub open spec fn collect_outcomes(s: Seq<StepOutcome>) -> Option<Seq<DraftView>>
    decreases s.len(),
{
    if s.len() == 0 {
        Some(Seq::empty())
    } else {
        match collect_outcomes(s.drop_last()) {
            None => None,
            Some(prev) => match s.last() {
                None => None,
                Some(None) => Some(prev),
                Some(Some(d)) => Some(prev.push(d)),
            },
        }
    }
}

/// Collected prefixes of a successful run are themselves successful and no larger.
pub proof fn lemma_collect_prefix(s: Seq<StepOutcome>, k: int)
    requires
        collect_outcomes(s) is Some,
        0 <= k <= s.len(),
    ensures
        collect_outcomes(s.take(k)) is Some,
        collect_outcomes(s.take(k))->0.len() <= collect_outcomes(s)->0.len(),
        view_evidence_total(collect_outcomes(s.take(k))->0) <= view_evidence_total(
            collect_outcomes(s)->0,
        ),
    decreases s.len(),
{
    if k == s.len() {
        assert(s.take(k) =~= s);
    } else {
        let t = s.drop_last();
        lemma_collect_prefix(t, k);
        assert(t.take(k) =~= s.take(k));
        let prev = collect_outcomes(t)->0;
        match s.last() {
            Some(Some(d)) => {
                assert(prev.push(d) =~= prev + seq![d]);
                lemma_view_evidence_total_append(prev, seq![d]);
            },
            _ => {},
        }
    }
}

/// Some step fails on its own while every earlier step succeeded within the budgets: the
/// run stops there with an internal failure, before any budget is exceeded.
pub open spec fn steps_fail_internally(outcomes: Seq<StepOutcome>, base: Seq<DraftView>, fb: nat, eb: nat) -> bool {
    exists|i: int|
        0 <= i < outcomes.len() && #[trigger] outcomes[i] is None && collect_outcomes(outcomes.take(i)) is Some
            && budget_fits(base, fb, eb, collect_outcomes(outcomes.take(i))->0)
}

/// A run whose steps up to `i` succeed but overflow the budgets at step `i` does not stop on
/// an internal failure.
pub proof fn lemma_overflow_not_internal(
    outcomes: Seq<StepOutcome>,
    base: Seq<DraftView>,
    fb: nat,
    eb: nat,
    i: int,
)
    requires
        0 <= i < outcomes.len(),
        collect_outcomes(outcomes.take(i + 1)) is Some,
        !budget_fits(base, fb, eb, collect_outcomes(outcomes.take(i + 1))->0),
    ensures
        !steps_fail_internally(outcomes, base, fb, eb),
{
    if steps_fail_internally(outcomes, base, fb, eb) {
        let k = choose|k: int|
            0 <= k < outcomes.len() && #[trigger] outcomes[k] is None && collect_outcomes(outcomes.take(k)) is Some
                && budget_fits(base, fb, eb, collect_outcomes(outcomes.take(k))->0);
        if k <= i {
            lemma_collect_prefix(outcomes.take(i + 1), k + 1);
            assert(outcomes.take(i + 1).take(k + 1) =~= outcomes.take(k + 1));
            assert(outcomes.take(k + 1).drop_last() =~= outcomes.take(k));
            assert(outcomes.take(k + 1).last() == outcomes[k]);
        } else {
            lemma_collect_prefix(outcomes.take(k), i + 1);
            assert(outcomes.take(k).take(i + 1) =~= outcomes.take(i + 1));
        }
    }
}

/// New findings fit within the remaining finding and evidence budgets.
pub open spec fn budget_fits(base: Seq<DraftView>, finding_budget: nat, evidence_budget: nat, new: Seq<DraftView>) -> bool {
    &&& base.len() + new.len() <= finding_budget
    &&& view_evidence_total(base) + view_evidence_total(new) <= evidence_budget
}

/// Bounded, engine-controlled sink collecting finding drafts during detector evaluation.
///
/// Every push checks the remaining finding and evidence budgets with checked arithmetic.
#[derive(Debug)]
pub struct DetectorDraftSink {
    findings: Vec<FindingDraft>,
    max_findings: usize,
    max_evidence_records: usize,
    current_evidence_records: usize,
}

impl DetectorDraftSink {
    /// Accepted drafts.
    pub closed spec fn drafts_view(&self) -> Seq<FindingDraft> {
        self.findings@
    }

    /// Finding budget.
    pub closed spec fn finding_budget(&self) -> nat {
        self.max_findings as nat
    }

    /// Evidence budget.
    pub closed spec fn evidence_budget(&self) -> nat {
        self.max_evidence_records as nat
    }

    /// Accepted drafts stay within both budgets and the evidence counter is exact.
    #[verifier::type_invariant]
    closed spec fn inv(self) -> bool {
        &&& self.findings@.len() <= self.max_findings
        &&& self.current_evidence_records == total_evidence(self.findings@)
        &&& self.current_evidence_records <= self.max_evidence_records
    }

    /// Creates a new empty sink with the given finding and evidence budgets.
    pub fn new(max_findings: usize, max_evidence_records: usize) -> (s: DetectorDraftSink)
        ensures
            s.drafts_view() == Seq::<FindingDraft>::empty(),
            s.finding_budget() == max_findings,
            s.evidence_budget() == max_evidence_records,
    {
        DetectorDraftSink {
            findings: Vec::new(),
            max_findings,
            max_evidence_records,
            current_evidence_records: 0,
        }
    }

    /// Pushes a finding draft when both budgets allow it; otherwise fails with a resource
    /// limit error and keeps the sink unchanged.
    pub fn push(&mut self, draft: FindingDraft) -> (r: Result<(), DetectorExecutionError>)
        ensures
            final(self).finding_budget() == old(self).finding_budget(),
            final(self).evidence_budget() == old(self).evidence_budget(),
            r is Ok <==> old(self).drafts_view().len() < old(self).finding_budget() && total_evidence(
                old(self).drafts_view(),
            ) + draft.evidence@.len() <= old(self).evidence_budget(),
            r is Ok ==> final(self).drafts_view() == old(self).drafts_view().push(draft),
            r is Err ==> final(self).drafts_view() == old(self).drafts_view(),
            r matches Err(e) ==> e matches DetectorExecutionError::ResourceLimitExceeded(_),
            old(self).drafts_view().len() >= old(self).finding_budget() ==> (r matches Err(
                DetectorExecutionError::ResourceLimitExceeded(m),
            ) && m@ == sanitized_message("detector draft finding budget exceeded"@)),
    {
        proof { use_type_invariant(&*self); }
        if self.findings.len() >= self.max_findings {
            return Err(DetectorExecutionError::resource_limit("detector draft finding budget exceeded"));
        }
        let count = draft.evidence.len();
        let new_total = match self.current_evidence_records.checked_add(count) {
            Some(t) => t,
            None => {
                return Err(DetectorExecutionError::resource_limit("detector evidence counter overflow"));
            },
        };
        if new_total > self.max_evidence_records {
            return Err(DetectorExecutionError::resource_limit("detector draft evidence budget exceeded"));
        }
        let ghost before = self.findings@;
        let mut taken = DetectorDraftSink::new(self.max_findings, self.max_evidence_records);
        std::mem::swap(&mut taken, self);
        let DetectorDraftSink { mut findings, max_findings, max_evidence_records, .. } = taken;
        findings.push(draft);
        assert(findings@.drop_last() =~= before);
        *self = DetectorDraftSink {
            findings,
            max_findings,
            max_evidence_records,
            current_evidence_records: new_total,
        };
        Ok(())
    }


    /// One emitting step of a detector run: pushes the draft of step `i` of `outcomes`,
    /// whose earlier steps were pushed on top of `base`.
    pub(crate) fn push_step(
        &mut self,
        draft: FindingDraft,
        Ghost(base): Ghost<Seq<DraftView>>,
        Ghost(outcomes): Ghost<Seq<StepOutcome>>,
        Ghost(i): Ghost<int>,
    ) -> (r: Result<(), DetectorExecutionError>)
        requires
            0 <= i < outcomes.len(),
            outcomes[i] == Some(Some(draft_view(draft))),
            collect_outcomes(outcomes.take(i)) is Some,
            draft_views(old(self).drafts_view()) == base + collect_outcomes(outcomes.take(i))->0,
        ensures
            final(self).finding_budget() == old(self).finding_budget(),
            final(self).evidence_budget() == old(self).evidence_budget(),
            collect_outcomes(outcomes.take(i + 1)) is Some,
            r is Ok ==> draft_views(final(self).drafts_view()) == base + collect_outcomes(
                outcomes.take(i + 1),
            )->0,
            r is Ok ==> budget_fits(
                base,
                old(self).finding_budget(),
                old(self).evidence_budget(),
                collect_outcomes(outcomes.take(i + 1))->0,
            ),
            r is Err ==> !budget_fits(
                base,
                old(self).finding_budget(),
                old(self).evidence_budget(),
                collect_outcomes(outcomes.take(i + 1))->0,
            ),
            r matches Err(e) ==> e is ResourceLimitExceeded,
    {
        let ghost before = self.drafts_view();
        let ghost d = draft_view(draft);
        let ghost prev = collect_outcomes(outcomes.take(i))->0;
        proof {
            assert(outcomes.take(i + 1).drop_last() =~= outcomes.take(i));
            assert(outcomes.take(i + 1).last() == outcomes[i]);
            lemma_total_evidence_views(before);
            lemma_view_evidence_total_append(base, prev);
            lemma_view_evidence_total_append(base + prev, seq![d]);
            lemma_view_evidence_total_append(prev, seq![d]);
            assert(prev.push(d) =~= prev + seq![d]);
            assert((base + prev) + seq![d] =~= base + prev.push(d));
            assert(view_evidence_total(seq![d]) == d.6.len()) by {
                let one = seq![d];
                assert(one.drop_last() =~= Seq::<DraftView>::empty());
                assert(view_evidence_total(one.drop_last()) == 0);
                assert(one.last() == d);
            }
            assert(d.6.len() == draft.evidence@.len());
        }
        let r = self.push(draft);
        proof {
            if r is Ok {
                assert(draft_views(self.drafts_view()) =~= draft_views(before).push(d));
                use_type_invariant(&*self);
                lemma_total_evidence_views(self.drafts_view());
            }
        }
        r
    }

    /// Returns the number of finding drafts currently in the sink.
    pub fn len(&self) -> (n: usize)
        ensures
            n == self.drafts_view().len(),
            n <= self.finding_budget(),
    {
        proof { use_type_invariant(self); }
        self.findings.len()
    }

    /// The drafts held so far fit both budgets.
    pub fn within_budget(&self)
        ensures
            budget_fits(Seq::empty(), self.finding_budget(), self.evidence_budget(), draft_views(self.drafts_view())),
    {
        proof {
            use_type_invariant(self);
            lemma_total_evidence_views(self.drafts_view());
            lemma_view_evidence_total_append(Seq::empty(), draft_views(self.drafts_view()));
            assert(Seq::<DraftView>::empty() + draft_views(self.drafts_view()) =~= draft_views(self.drafts_view()));
        }
    }

    /// Returns `true` if the sink contains zero finding drafts.
    pub fn is_empty(&self) -> (b: bool)
        ensures
            b == (self.drafts_view().len() == 0),
    {
        self.findings.len() == 0
    }

    /// Returns the cumulative number of evidence records in all accepted finding drafts.
    pub fn evidence_count(&self) -> (n: usize)
        ensures
            n == total_evidence(self.drafts_view()),
            n <= self.evidence_budget(),
    {
        proof { use_type_invariant(self); }
        self.current_evidence_records
    }

    /// Returns the finding drafts currently held in the sink.
    pub fn drafts(&self) -> (d: &[FindingDraft])
        ensures
            d@ == self.drafts_view(),
    {
        self.findings.as_slice()
    }

    /// Consumes the sink and returns the collected finding drafts.
    pub fn into_drafts(self) -> (d: Vec<FindingDraft>)
        ensures
            d@ == self.drafts_view(),
            d@.len() <= self.finding_budget(),
            total_evidence(d@) <= self.evidence_budget(),
    {
        proof { use_type_invariant(&self); }
        self.findings
    }

    /// Clears all findings and resets the evidence count (used for transactional discard).
    pub fn clear(&mut self)
        ensures
            final(self).drafts_view() == Seq::<FindingDraft>::empty(),
            final(self).finding_budget() == old(self).finding_budget(),
            final(self).evidence_budget() == old(self).evidence_budget(),
    {
        *self = DetectorDraftSink::new(self.max_findings, self.max_evidence_records);
    }
}

/// Pure, offline analytical detector evaluation contract.
///
/// Implementations are functions of the borrowed input and the parameters, and report
/// findings only through the sink.
pub trait Detector {
    /// The detector's metadata.
    spec fn spec_metadata(&self) -> DetectorMetadata;

    /// Returns immutable metadata describing the detector.
    fn metadata(&self) -> (m: &DetectorMetadata)
        ensures
            *m == self.spec_metadata(),
    ;

    /// Whether the detector accepts a parameter list.
    spec fn spec_params_valid(&self, parameters: Seq<ParameterView>) -> bool;

    /// Whether `e` is the error the detector reports for a parameter list it rejects.
    spec fn spec_rejection(&self, parameters: Seq<ParameterView>, e: DetectorConfigError) -> bool;

    /// Validates configuration parameters prior to execution.
    fn validate_parameters(&self, parameters: &DetectorParameters) -> (r: Result<
        (),
        DetectorConfigError,
    >)
        ensures
            r is Ok <==> self.spec_params_valid(parameters@),
            r matches Err(e) ==> self.spec_rejection(parameters@, e),
    ;

    /// The drafts a successful evaluation of `input` with `parameters` emits, in order.
    spec fn spec_drafts(&self, input: DetectionInput<'_>, parameters: Seq<ParameterView>) -> Seq<DraftView>;

    /// Whether evaluating `input` with `parameters` succeeds on a sink that already holds
    /// `prior` and has these budgets.
    spec fn spec_succeeds(
        &self,
        input: DetectionInput<'_>,
        parameters: Seq<ParameterView>,
        prior: Seq<DraftView>,
        finding_budget: nat,
        evidence_budget: nat,
    ) -> bool;

    /// Whether an evaluation that fails, on a sink holding `prior` with these budgets, fails
    /// with an internal error rather than by exceeding a resource limit.
    spec fn spec_fails_internally(
        &self,
        input: DetectionInput<'_>,
        parameters: Seq<ParameterView>,
        prior: Seq<DraftView>,
        finding_budget: nat,
        evidence_budget: nat,
    ) -> bool;

    /// Evaluates normalized input facts against validated parameters, emitting finding drafts
    /// into `output`: on success the drafts follow those already in the sink.
    fn evaluate(
        &self,
        input: &DetectionInput<'_>,
        parameters: &DetectorParameters,
        output: &mut DetectorDraftSink,
    ) -> (r: Result<(), DetectorExecutionError>)
        ensures
            final(output).finding_budget() == old(output).finding_budget(),
            final(output).evidence_budget() == old(output).evidence_budget(),
            r is Ok <==> self.spec_succeeds(
                *input,
                parameters@,
                draft_views(old(output).drafts_view()),
                old(output).finding_budget(),
                old(output).evidence_budget(),
            ),
            r is Ok ==> draft_views(final(output).drafts_view()) == draft_views(old(output).drafts_view())
                + self.spec_drafts(*input, parameters@),
            r matches Err(e) ==> (e is InternalError <==> self.spec_fails_internally(
                *input,
                parameters@,
                draft_views(old(output).drafts_view()),
                old(output).finding_budget(),
                old(output).evidence_budget(),
            )),
    ;
}

} // verus!

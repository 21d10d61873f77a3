//! The outcome of a detection run is determined by what it runs over: which findings are
//! accepted, with what content and in what order, does not depend on anything else.

use vstd::prelude::*;
use crate::canonical::{drafts_canonical, lemma_canonical_subjects_distinct, lemma_subject_lt_order, subject_lt};
use crate::config::ConfigEntryView;
use crate::correlation::FindingCorrelator;
use crate::detector::{Detector, DetectorMetadata};
use crate::input::DetectionInput;
use crate::domain::{DetectorVersion, EvidenceRecord, FindingDraft, FindingRecord};
use crate::engine::{
    accepted_into, block_at, declared_mappings, detector_blocks, detector_runs, effective_config, evidence_before,
    evidence_ids_of, findings_unique, flat_evidence_ids, input_partial, lemma_permutation_member,
    correlated_outcome_consistent, findings_split, limits_run, outcome_layout, record_consistent,
    run_outcome_consistent, same_subject_at, some_run_limited,
    DetectionRunOutcome, DetectorExecutionRecord, DetectorExecutionStatus,
};
use crate::sorted::{asymmetric, lemma_sorted_unique, strictly_sorted};
use crate::views::{draft_view, draft_views, evidence_view, mapping_views, DraftView};

verus! {

/// What a finding says: its component and version, and its subject, texts, severity,
/// confidence, the content of the evidence it refers to, and its mappings.
pub type FindingContent = (Seq<char>, DetectorVersion, DraftView);

/// The content of a finding whose evidence references point into `es`.
pub open spec fn finding_content(f: FindingRecord, es: Seq<EvidenceRecord>) -> FindingContent {
    (
        f.detector_id@,
        f.detector_version,
        (
            f.subject.view_parts(),
            f.title@,
            f.summary@,
            f.rationale@,
            f.severity,
            f.confidence,
            Seq::new(
                f.evidence_references@.len(),
                |t: int| evidence_view(es[f.evidence_references@[t].id as int].evidence),
            ),
            mapping_views(f.mitre_mappings@),
        ),
    )
}

/// The contents of the findings, in order.
pub open spec fn findings_content(fs: Seq<FindingRecord>, es: Seq<EvidenceRecord>) -> Seq<FindingContent> {
    Seq::new(fs.len(), |i: int| finding_content(fs[i], es))
}

/// The content of a finding accepted from a draft with content `v` of the detector with
/// metadata `meta`.
pub open spec fn accepted_content(v: DraftView, meta: DetectorMetadata) -> FindingContent {
    (
        meta.spec_id(),
        meta.spec_version(),
        (v.0, v.1, v.2, v.3, v.4, v.5, v.6, declared_mappings(meta.spec_declarations(), (true, meta.spec_id(), meta.spec_version()))),
    )
}

/// A finding accepted from a draft says what the draft says, under the detector's
/// identity and declared mappings.
proof fn lemma_accepted_content(f: FindingRecord, d: FindingDraft, meta: DetectorMetadata, es: Seq<EvidenceRecord>)
    requires
        accepted_into(f, d, meta, es),
    ensures
        finding_content(f, es) == accepted_content(draft_view(d), meta),
{
    let c = finding_content(f, es);
    assert(c.2.6 =~= draft_view(d).6);
}

/// The number of evidence records that the first `p` findings refer to depends only on how
/// many each of them refers to.
proof fn lemma_evidence_before_same(fs1: Seq<FindingRecord>, fs2: Seq<FindingRecord>, p: int)
    requires
        0 <= p <= fs1.len(),
        p <= fs2.len(),
        forall|i: int|
            0 <= i < p ==> (#[trigger] fs1[i]).evidence_references@.len() == fs2[i].evidence_references@.len(),
    ensures
        evidence_before(fs1, p) == evidence_before(fs2, p),
    decreases p,
{
    if p > 0 {
        lemma_evidence_before_same(fs1, fs2, p - 1);
        assert(fs1.take(p).drop_last() =~= fs1.take(p - 1));
        assert(fs2.take(p).drop_last() =~= fs2.take(p - 1));
        assert(fs1.take(p).last() == fs1[p - 1]);
        assert(fs2.take(p).last() == fs2[p - 1]);
        assert(evidence_ids_of(fs1[p - 1]).len() == fs1[p - 1].evidence_references@.len());
        assert(evidence_ids_of(fs2[p - 1]).len() == fs2[p - 1].evidence_references@.len());
    } else {
        assert(fs1.take(0) =~= Seq::<FindingRecord>::empty());
        assert(fs2.take(0) =~= Seq::<FindingRecord>::empty());
    }
}

/// Drafts ordered by subject.
pub open spec fn by_subject() -> spec_fn(DraftView, DraftView) -> bool {
    |a: DraftView, b: DraftView| subject_lt(a.0, b.0)
}

/// Two canonical orderings of drafts with the same contents, no two of either sharing a
/// subject, have the same contents in the same order.
proof fn lemma_canonical_views_unique(
    raw1: Seq<FindingDraft>,
    sorted1: Seq<FindingDraft>,
    raw2: Seq<FindingDraft>,
    sorted2: Seq<FindingDraft>,
)
    requires
        draft_views(raw1) == draft_views(raw2),
        sorted1.to_multiset() == raw1.to_multiset(),
        sorted2.to_multiset() == raw2.to_multiset(),
        drafts_canonical(sorted1),
        drafts_canonical(sorted2),
        forall|a: int, b: int|
            0 <= a < b < sorted1.len() ==> (#[trigger] sorted1[a]).subject.view_parts() != (#[trigger] sorted1[b]).subject.view_parts(),
        forall|a: int, b: int|
            0 <= a < b < sorted2.len() ==> (#[trigger] sorted2[a]).subject.view_parts() != (#[trigger] sorted2[b]).subject.view_parts(),
    ensures
        draft_views(sorted1) == draft_views(sorted2),
{
    let lt = by_subject();
    assert(raw1.len() == draft_views(raw1).len() && raw2.len() == draft_views(raw2).len());
    let v1 = draft_views(sorted1);
    let v2 = draft_views(sorted2);
    assert(asymmetric(lt)) by {
        assert forall|x: DraftView, y: DraftView| #[trigger] lt(x, y) implies !lt(y, x) by {
            lemma_subject_lt_order(x.0, y.0, x.0);
        }
    }
    assert forall|k: int| 0 <= k < sorted1.len() - 1 implies !#[trigger] same_subject_at(sorted1, k) by {
        assert(sorted1[k].subject.view_parts() != sorted1[k + 1].subject.view_parts());
    }
    assert forall|k: int| 0 <= k < sorted2.len() - 1 implies !#[trigger] same_subject_at(sorted2, k) by {
        assert(sorted2[k].subject.view_parts() != sorted2[k + 1].subject.view_parts());
    }
    assert(strictly_sorted(v1, lt)) by {
        assert forall|i: int, j: int| 0 <= i < j < v1.len() implies #[trigger] lt(v1[i], v1[j]) by {
            lemma_canonical_subjects_distinct(sorted1, i, j);
        }
    }
    assert(strictly_sorted(v2, lt)) by {
        assert forall|i: int, j: int| 0 <= i < j < v2.len() implies #[trigger] lt(v2[i], v2[j]) by {
            lemma_canonical_subjects_distinct(sorted2, i, j);
        }
    }
    assert forall|x: DraftView| v1.contains(x) <==> v2.contains(x) by {
        if v1.contains(x) {
            let i = choose|i: int| 0 <= i < v1.len() && v1[i] == x;
            let k = lemma_permutation_member(raw1, sorted1, i);
            assert(draft_views(raw1)[k] == x);
            assert(draft_views(raw2)[k] == x);
            let m = lemma_permutation_member(sorted2, raw2, k);
            assert(v2[m] == x);
        }
        if v2.contains(x) {
            let i = choose|i: int| 0 <= i < v2.len() && v2[i] == x;
            let k = lemma_permutation_member(raw2, sorted2, i);
            assert(draft_views(raw2)[k] == x);
            assert(draft_views(raw1)[k] == x);
            let m = lemma_permutation_member(sorted1, raw1, k);
            assert(v1[m] == x);
        }
    }
    lemma_sorted_unique(v1, v2, lt);
}

/// Two runs that agree on the findings before a detector's turn agree on its block: the
/// same findings, with the same contents, and a status that executed, or made the run
/// partial, in both or in neither.
proof fn lemma_block_determined<D: Detector>(
    fs1: Seq<FindingRecord>,
    es1: Seq<EvidenceRecord>,
    recs1: Seq<DetectorExecutionRecord>,
    starts1: Seq<int>,
    fs2: Seq<FindingRecord>,
    es2: Seq<EvidenceRecord>,
    recs2: Seq<DetectorExecutionRecord>,
    starts2: Seq<int>,
    detectors: Seq<D>,
    configs: Seq<ConfigEntryView>,
    input: DetectionInput<'_>,
    limits: (usize, usize, usize, usize, usize),
    k: int,
)
    requires
        0 <= k < detectors.len(),
        k < recs1.len(),
        k < recs2.len(),
        record_consistent(recs1[k], detectors[k], configs, input_partial(input)),
        record_consistent(recs2[k], detectors[k], configs, input_partial(input)),
        findings_unique(fs1),
        findings_unique(fs2),
        block_at(fs1, es1, recs1, detectors, configs, input, limits, starts1, k),
        block_at(fs2, es2, recs2, detectors, configs, input, limits, starts2, k),
        starts1[k] == starts2[k],
        forall|i: int| 0 <= i < starts1[k] ==> #[trigger] finding_content(fs1[i], es1) == finding_content(fs2[i], es2),
    ensures
        starts1[k + 1] == starts2[k + 1],
        forall|i: int| 0 <= i < starts1[k + 1] ==> #[trigger] finding_content(fs1[i], es1) == finding_content(fs2[i], es2),
        recs1[k].status is Executed <==> recs2[k].status is Executed,
        limits_run(recs1[k].status) <==> limits_run(recs2[k].status),
        recs1[k].status is Failed <==> recs2[k].status is Failed,
{
    let start = starts1[k];
    let d = detectors[k];
    let meta = d.spec_metadata();
    let params = effective_config(configs, meta.spec_id()).1;
    assert forall|i: int| 0 <= i < start implies (#[trigger] fs1[i]).evidence_references@.len()
        == fs2[i].evidence_references@.len() by {
        assert(finding_content(fs1[i], es1).2.6.len() == finding_content(fs2[i], es2).2.6.len());
    }
    lemma_evidence_before_same(fs1, fs2, start);
    if recs1[k].status is Executed {
        assert(recs2[k].status is Executed);
        let views = d.spec_drafts(input, params);
        let (raw1, sorted1) = choose|raw: Seq<FindingDraft>, sorted: Seq<FindingDraft>|
            #![trigger draft_views(raw), drafts_canonical(sorted)]
            draft_views(raw) == views && sorted.to_multiset() == raw.to_multiset() && drafts_canonical(sorted)
                && starts1[k + 1] - start == sorted.len() && forall|t: int|
                0 <= t < sorted.len() ==> accepted_into(#[trigger] fs1[start + t], sorted[t], meta, es1);
        let (raw2, sorted2) = choose|raw: Seq<FindingDraft>, sorted: Seq<FindingDraft>|
            #![trigger draft_views(raw), drafts_canonical(sorted)]
            draft_views(raw) == views && sorted.to_multiset() == raw.to_multiset() && drafts_canonical(sorted)
                && starts2[k + 1] - start == sorted.len() && forall|t: int|
                0 <= t < sorted.len() ==> accepted_into(#[trigger] fs2[start + t], sorted[t], meta, es2);
        assert forall|a: int, b: int| 0 <= a < b < sorted1.len() implies (#[trigger] sorted1[a]).subject.view_parts()
            != (#[trigger] sorted1[b]).subject.view_parts() by {
            assert(accepted_into(fs1[start + a], sorted1[a], meta, es1));
            assert(accepted_into(fs1[start + b], sorted1[b], meta, es1));
        }
        assert forall|a: int, b: int| 0 <= a < b < sorted2.len() implies (#[trigger] sorted2[a]).subject.view_parts()
            != (#[trigger] sorted2[b]).subject.view_parts() by {
            assert(accepted_into(fs2[start + a], sorted2[a], meta, es2));
            assert(accepted_into(fs2[start + b], sorted2[b], meta, es2));
        }
        lemma_canonical_views_unique(raw1, sorted1, raw2, sorted2);
        assert(sorted1.len() == draft_views(sorted1).len() && sorted2.len() == draft_views(sorted2).len());
        assert forall|i: int| 0 <= i < starts1[k + 1] implies #[trigger] finding_content(fs1[i], es1)
            == finding_content(fs2[i], es2) by {
            if i >= start {
                let t = i - start;
                assert(fs1[start + t] == fs1[i]);
                assert(fs2[start + t] == fs2[i]);
                assert(accepted_into(fs1[start + t], sorted1[t], meta, es1));
                assert(accepted_into(fs2[start + t], sorted2[t], meta, es2));
                lemma_accepted_content(fs1[i], sorted1[t], meta, es1);
                lemma_accepted_content(fs2[i], sorted2[t], meta, es2);
                assert(draft_views(sorted1)[t] == draft_view(sorted1[t]));
                assert(draft_views(sorted2)[t] == draft_view(sorted2[t]));
            }
        }
    } else {
        assert(!(recs2[k].status is Executed));
    }
}

/// Two runs agree on the blocks of the first `k` detectors.
proof fn lemma_blocks_determined<D: Detector>(
    fs1: Seq<FindingRecord>,
    es1: Seq<EvidenceRecord>,
    recs1: Seq<DetectorExecutionRecord>,
    starts1: Seq<int>,
    fs2: Seq<FindingRecord>,
    es2: Seq<EvidenceRecord>,
    recs2: Seq<DetectorExecutionRecord>,
    starts2: Seq<int>,
    detectors: Seq<D>,
    configs: Seq<ConfigEntryView>,
    input: DetectionInput<'_>,
    limits: (usize, usize, usize, usize, usize),
    k: int,
)
    requires
        0 <= k <= detectors.len(),
        recs1.len() == detectors.len(),
        recs2.len() == detectors.len(),
        forall|j: int|
            0 <= j < recs1.len() ==> record_consistent(#[trigger] recs1[j], detectors[j], configs, input_partial(input)),
        forall|j: int|
            0 <= j < recs2.len() ==> record_consistent(#[trigger] recs2[j], detectors[j], configs, input_partial(input)),
        findings_unique(fs1),
        findings_unique(fs2),
        detector_blocks(fs1, es1, recs1, detectors, configs, input, limits, starts1),
        detector_blocks(fs2, es2, recs2, detectors, configs, input, limits, starts2),
    ensures
        starts1[k] == starts2[k],
        forall|i: int| 0 <= i < starts1[k] ==> #[trigger] finding_content(fs1[i], es1) == finding_content(fs2[i], es2),
        forall|j: int|
            0 <= j < k ==> (recs1[j].status is Executed <==> (#[trigger] recs2[j]).status is Executed) && (limits_run(
                recs1[j].status,
            ) <==> limits_run(recs2[j].status)) && (recs1[j].status is Failed <==> recs2[j].status is Failed),
    decreases k,
{
    if k > 0 {
        lemma_blocks_determined(fs1, es1, recs1, starts1, fs2, es2, recs2, starts2, detectors, configs, input, limits, k - 1);
        assert(block_at(fs1, es1, recs1, detectors, configs, input, limits, starts1, k - 1));
        assert(block_at(fs2, es2, recs2, detectors, configs, input, limits, starts2, k - 1));
        assert(record_consistent(recs1[k - 1], detectors[k - 1], configs, input_partial(input)));
        assert(record_consistent(recs2[k - 1], detectors[k - 1], configs, input_partial(input)));
        lemma_block_determined(fs1, es1, recs1, starts1, fs2, es2, recs2, starts2, detectors, configs, input, limits, k - 1);
    }
}

/// Statuses of the same variant (a failure's reason aside).
pub open spec fn same_status_kind(a: DetectorExecutionStatus, b: DetectorExecutionStatus) -> bool {
    &&& (a is Executed <==> b is Executed)
    &&& (a is Disabled <==> b is Disabled)
    &&& (a is SkippedIncompleteData <==> b is SkippedIncompleteData)
    &&& (a is Failed <==> b is Failed)
    &&& (a is ResourceLimited <==> b is ResourceLimited)
    &&& (limits_run(a) <==> limits_run(b))
}

/// A detection run is deterministic: two successful runs of the same detectors over the
/// same input, with the same configurations and limits, accept the same findings, with the
/// same contents, in the same order, and the same number of evidence records; the same
/// detectors execute, are disabled, are skipped, fail and are rejected in both; and both end
/// equally complete.
pub proof fn law_detection_deterministic<D: Detector>(
    o1: DetectionRunOutcome,
    o2: DetectionRunOutcome,
    detectors: Seq<D>,
    configs: Seq<ConfigEntryView>,
    input: DetectionInput<'_>,
    limits: (usize, usize, usize, usize, usize),
)
    requires
        run_outcome_consistent(o1, detectors, configs, input, limits),
        run_outcome_consistent(o2, detectors, configs, input, limits),
    ensures
        findings_content(o1.findings@, o1.evidence@) == findings_content(o2.findings@, o2.evidence@),
        o1.evidence@.len() == o2.evidence@.len(),
        forall|k: int|
            0 <= k < detectors.len() ==> same_status_kind(
                #[trigger] o1.detector_executions@[k].status,
                o2.detector_executions@[k].status,
            ),
        o1.completion == o2.completion,
{
    let fs1 = o1.findings@;
    let fs2 = o2.findings@;
    let es1 = o1.evidence@;
    let es2 = o2.evidence@;
    let recs1 = o1.detector_executions@;
    let recs2 = o2.detector_executions@;
    let starts1 = choose|starts: Seq<int>| #[trigger] detector_blocks(fs1, es1, recs1, detectors, configs, input, limits, starts);
    let starts2 = choose|starts: Seq<int>| #[trigger] detector_blocks(fs2, es2, recs2, detectors, configs, input, limits, starts);
    let n = detectors.len() as int;
    lemma_blocks_determined(fs1, es1, recs1, starts1, fs2, es2, recs2, starts2, detectors, configs, input, limits, n);
    assert(findings_content(fs1, es1) =~= findings_content(fs2, es2));
    assert forall|k: int| 0 <= k < n implies same_status_kind(
        #[trigger] recs1[k].status,
        recs2[k].status,
    ) by {
        assert(record_consistent(recs1[k], detectors[k], configs, input_partial(input)));
        assert(record_consistent(recs2[k], detectors[k], configs, input_partial(input)));
    }
    assert forall|i: int| 0 <= i < fs1.len() implies (#[trigger] fs1[i]).evidence_references@.len()
        == fs2[i].evidence_references@.len() by {
        assert(finding_content(fs1[i], es1).2.6.len() == finding_content(fs2[i], es2).2.6.len());
    }
    lemma_evidence_before_same(fs1, fs2, fs1.len() as int);
    assert(fs1.take(fs1.len() as int) =~= fs1);
    assert(fs2.take(fs2.len() as int) =~= fs2);
    assert(flat_evidence_ids(fs1).len() == es1.len());
    assert(flat_evidence_ids(fs2).len() == es2.len());
    if some_run_limited(recs1) {
        let k = choose|k: int| 0 <= k < recs1.len() && limits_run(#[trigger] recs1[k].status);
        assert(limits_run(recs2[k].status));
    }
    if some_run_limited(recs2) {
        let k = choose|k: int| 0 <= k < recs2.len() && limits_run(#[trigger] recs2[k].status);
        assert(limits_run(recs1[k].status));
    }
}

/// A run with correlators begins as the run without them: its first findings are exactly
/// the findings, with the same contents and in the same order, of a successful run of the
/// same detectors over the same input, configurations and limits; the correlated findings
/// follow them. Both accept the same evidence records, and every detector's status is of the
/// same kind in both.
pub proof fn law_correlated_run_extends_primary<D: Detector, C: FindingCorrelator>(
    o: DetectionRunOutcome,
    primary: DetectionRunOutcome,
    detectors: Seq<D>,
    correlators: Seq<C>,
    configs: Seq<ConfigEntryView>,
    input: DetectionInput<'_>,
    limits: (usize, usize, usize, usize, usize),
)
    requires
        correlated_outcome_consistent(o, detectors, correlators, configs, input, limits),
        run_outcome_consistent(primary, detectors, configs, input, limits),
    ensures
        primary.findings@.len() <= o.findings@.len(),
        findings_content(o.findings@.take(primary.findings@.len() as int), o.evidence@) == findings_content(
            primary.findings@,
            primary.evidence@,
        ),
        o.evidence@.len() == primary.evidence@.len(),
        forall|k: int|
            0 <= k < detectors.len() ==> same_status_kind(
                #[trigger] o.detector_executions@[k].status,
                primary.detector_executions@[k].status,
            ),
{
    let (p, starts1, cstarts) = choose|p: int, starts: Seq<int>, cstarts: Seq<int>|
        #[trigger] outcome_layout(o, detectors, correlators, configs, input, limits, p, starts, cstarts);
    assert(findings_split(o, p, input));
    let fs1 = o.findings@.take(p);
    let es1 = o.evidence@;
    let recs1 = o.detector_executions@;
    let fs2 = primary.findings@;
    let es2 = primary.evidence@;
    let recs2 = primary.detector_executions@;
    let starts2 = choose|starts: Seq<int>| #[trigger] detector_blocks(fs2, es2, recs2, detectors, configs, input, limits, starts);
    let n = detectors.len() as int;
    lemma_blocks_determined(fs1, es1, recs1, starts1, fs2, es2, recs2, starts2, detectors, configs, input, limits, n);
    assert(fs1.len() == p);
    assert(findings_content(fs1, es1) =~= findings_content(fs2, es2));
    assert forall|k: int| 0 <= k < n implies same_status_kind(#[trigger] recs1[k].status, recs2[k].status) by {
        assert(record_consistent(recs1[k], detectors[k], configs, input_partial(input)));
        assert(record_consistent(recs2[k], detectors[k], configs, input_partial(input)));
    }
    assert forall|i: int| 0 <= i < fs1.len() implies (#[trigger] fs1[i]).evidence_references@.len()
        == fs2[i].evidence_references@.len() by {
        assert(finding_content(fs1[i], es1).2.6.len() == finding_content(fs2[i], es2).2.6.len());
    }
    lemma_evidence_before_same(fs1, fs2, fs1.len() as int);
    assert(fs1.take(fs1.len() as int) =~= fs1);
    assert(fs2.take(fs2.len() as int) =~= fs2);
    assert(flat_evidence_ids(fs1).len() == es1.len());
    assert(flat_evidence_ids(fs2).len() == es2.len());
}

} // verus!

//! Properties of the library that span several calls or hold of every state.

use vstd::prelude::*;
use crate::correlation::{correlator_ids, CorrelationRegistry, FindingCorrelator};
use crate::detector::Detector;
use crate::domain::{confidence_rank, detector_id_lt, severity_rank, FindingRecord};
use crate::error::{
    cleaned_char, cleaned_prefix, is_control_char, sanitized_message, utf8_width, MAX_DETECTOR_ERROR_MESSAGE_LENGTH,
};
use crate::filtering::{filter_matches, matching, FilterView};
use crate::presentation::{safe_cut, truncated_presentation};
use crate::registry::{detector_ids, ids_sorted, lemma_ids_pairwise, DetectorRegistry};
use crate::sorted::{asymmetric, lemma_sorted_unique, strictly_sorted};
use crate::text::{lemma_lex_lt_asymmetric, text_bytes};
use crate::config::ConfigEntryView;
use crate::engine::{
    correlated_outcome_consistent, correlator_record_consistent, findings_split, outcome_layout, DetectionRunOutcome,
};
use crate::input::DetectionInput;
use crate::provenance::{provenance_owned, sources_resolve};

verus! {

/// Detectors ordered by identifier.
pub open spec fn by_detector_id<D: Detector>() -> spec_fn(D, D) -> bool {
    |a: D, b: D| detector_id_lt(a.spec_metadata().spec_id(), b.spec_metadata().spec_id())
}

/// Correlators ordered by identifier.
pub open spec fn by_correlator_id<C: FindingCorrelator>() -> spec_fn(C, C) -> bool {
    |a: C, b: C| detector_id_lt(a.spec_metadata().spec_id(), b.spec_metadata().spec_id())
}

/// The order of a registry does not depend on the order of registration: two registries
/// holding the same detectors hold them in the same (canonical identifier) order, so a
/// detection run over either sees the detectors in the same order.
pub proof fn law_registry_order_independent<D: Detector>(r1: DetectorRegistry<D>, r2: DetectorRegistry<D>)
    requires
        ids_sorted(r1.ids()),
        ids_sorted(r2.ids()),
        forall|d: D| r1.spec_detectors().contains(d) <==> r2.spec_detectors().contains(d),
    ensures
        r1.spec_detectors() == r2.spec_detectors(),
        r1.ids() == r2.ids(),
{
    let lt = by_detector_id::<D>();
    assert forall|x: D, y: D| #[trigger] lt(x, y) implies !lt(y, x) by {
        lemma_lex_lt_asymmetric(
            text_bytes(x.spec_metadata().spec_id()),
            text_bytes(y.spec_metadata().spec_id()),
        );
    }
    let a = r1.spec_detectors();
    let b = r2.spec_detectors();
    assert forall|i: int, j: int| 0 <= i < j < a.len() implies #[trigger] lt(a[i], a[j]) by {
        lemma_ids_pairwise(r1.ids(), i, j);
    }
    assert forall|i: int, j: int| 0 <= i < j < b.len() implies #[trigger] lt(b[i], b[j]) by {
        lemma_ids_pairwise(r2.ids(), i, j);
    }
    lemma_sorted_unique(a, b, lt);
}

/// The same holds of correlator registries.
pub proof fn law_correlator_registry_order_independent<C: FindingCorrelator>(
    r1: CorrelationRegistry<C>,
    r2: CorrelationRegistry<C>,
)
    requires
        ids_sorted(r1.ids()),
        ids_sorted(r2.ids()),
        forall|c: C| r1.spec_correlators().contains(c) <==> r2.spec_correlators().contains(c),
    ensures
        r1.spec_correlators() == r2.spec_correlators(),
        r1.ids() == r2.ids(),
{
    let lt = by_correlator_id::<C>();
    assert forall|x: C, y: C| #[trigger] lt(x, y) implies !lt(y, x) by {
        lemma_lex_lt_asymmetric(
            text_bytes(x.spec_metadata().spec_id()),
            text_bytes(y.spec_metadata().spec_id()),
        );
    }
    let a = r1.spec_correlators();
    let b = r2.spec_correlators();
    assert forall|i: int, j: int| 0 <= i < j < a.len() implies #[trigger] lt(a[i], a[j]) by {
        lemma_ids_pairwise(r1.ids(), i, j);
    }
    assert forall|i: int, j: int| 0 <= i < j < b.len() implies #[trigger] lt(b[i], b[j]) by {
        lemma_ids_pairwise(r2.ids(), i, j);
    }
    lemma_sorted_unique(a, b, lt);
}

/// The empty filter keeps every finding, in order.
pub proof fn law_empty_filter_keeps_all(fs: Seq<FindingRecord>)
    ensures
        matching((None, None, None, None), fs) == fs,
    decreases fs.len(),
{
    if fs.len() > 0 {
        law_empty_filter_keeps_all(fs.drop_last());
        assert(fs.drop_last().push(fs.last()) =~= fs);
    }
}

/// A finding is kept exactly when it matches, and whatever is kept came from the input.
pub proof fn law_filter_keeps_matching(f: FilterView, fs: Seq<FindingRecord>)
    ensures
        forall|x: FindingRecord| matching(f, fs).contains(x) <==> (fs.contains(x) && filter_matches(f, x)),
        matching(f, fs).len() <= fs.len(),
    decreases fs.len(),
{
    if fs.len() > 0 {
        let init = fs.drop_last();
        law_filter_keeps_matching(f, init);
        assert forall|x: FindingRecord| matching(f, fs).contains(x) <==> (fs.contains(x) && filter_matches(f, x)) by {
            assert(fs =~= init.push(fs.last()));
            if init.contains(x) {
                let k = choose|k: int| 0 <= k < init.len() && init[k] == x;
                assert(fs[k] == x);
            }
            if fs.contains(x) {
                let k = choose|k: int| 0 <= k < fs.len() && fs[k] == x;
                if k < fs.len() - 1 {
                    assert(init[k] == x);
                }
            }
            let m = matching(f, init);
            if filter_matches(f, fs.last()) {
                assert(matching(f, fs) == m.push(fs.last()));
                if m.push(fs.last()).contains(x) {
                    let k = choose|k: int| 0 <= k < m.len() + 1 && m.push(fs.last())[k] == x;
                    if k < m.len() {
                        assert(m[k] == x);
                    }
                }
                if m.contains(x) {
                    let k = choose|k: int| 0 <= k < m.len() && m[k] == x;
                    assert(m.push(fs.last())[k] == x);
                }
                if x == fs.last() {
                    assert(m.push(fs.last())[m.len() as int] == x);
                }
            }
        }
    }
}

/// A single finding matches a filter exactly when its severity is at least the minimum
/// severity, its confidence at least the minimum confidence, its detector is the wanted
/// detector, and one of its technique mappings names the wanted technique, for each criterion
/// that is set.
pub proof fn law_finding_matches_criteria(f: FilterView, x: FindingRecord)
    ensures
        filter_matches(f, x) <==> {
            &&& (f.0 matches Some(s) ==> severity_rank(x.severity) >= severity_rank(s))
            &&& (f.1 matches Some(c) ==> confidence_rank(x.confidence) >= confidence_rank(c))
            &&& (f.2 matches Some(id) ==> x.detector_id@ == id)
            &&& (f.3 matches Some(t) ==> exists|i: int|
                0 <= i < x.mitre_mappings@.len() && (#[trigger] x.mitre_mappings@[i]).technique_id@ == t)
        },
{
}

/// The kept findings are exactly the findings of the input whose severity is at least the
/// minimum severity, whose confidence is at least the minimum confidence, whose detector is
/// the wanted detector, and one of whose technique mappings names the wanted technique, for
/// each criterion that is set; in particular a finding below a set minimum severity or
/// minimum confidence is never kept.
pub proof fn law_filter_criteria(f: FilterView, fs: Seq<FindingRecord>)
    ensures
        forall|x: FindingRecord|
            #![trigger matching(f, fs).contains(x)]
            matching(f, fs).contains(x) <==> {
                &&& fs.contains(x)
                &&& (f.0 matches Some(s) ==> severity_rank(x.severity) >= severity_rank(s))
                &&& (f.1 matches Some(c) ==> confidence_rank(x.confidence) >= confidence_rank(c))
                &&& (f.2 matches Some(id) ==> x.detector_id@ == id)
                &&& (f.3 matches Some(t) ==> exists|i: int|
                    0 <= i < x.mitre_mappings@.len() && (#[trigger] x.mitre_mappings@[i]).technique_id@ == t)
            },
        forall|x: FindingRecord|
            #![trigger matching(f, fs).contains(x)]
            f.1 matches Some(c) && confidence_rank(x.confidence) < confidence_rank(c) ==> !matching(f, fs).contains(x),
        forall|x: FindingRecord|
            #![trigger matching(f, fs).contains(x)]
            f.0 matches Some(s) && severity_rank(x.severity) < severity_rank(s) ==> !matching(f, fs).contains(x),
{
    law_filter_keeps_matching(f, fs);
    assert forall|x: FindingRecord| #[trigger] matching(f, fs).contains(x) == (fs.contains(x) && filter_matches(f, x)) by {
    }
}

/// Filtering twice with the same criteria keeps the same findings as filtering once.
pub proof fn law_filter_idempotent(f: FilterView, fs: Seq<FindingRecord>)
    ensures
        matching(f, matching(f, fs)) == matching(f, fs),
    decreases fs.len(),
{
    if fs.len() > 0 {
        let init = fs.drop_last();
        law_filter_idempotent(f, init);
        if filter_matches(f, fs.last()) {
            let m = matching(f, init);
            let mm = m.push(fs.last());
            assert(mm.drop_last() =~= m);
            assert(mm.last() == fs.last());
        }
    }
}

/// Every criterion of `strict` is at least as demanding as the same criterion of `loose`.
pub open spec fn at_least_as_strict(strict: FilterView, loose: FilterView) -> bool {
    &&& (loose.0 matches Some(s) ==> (strict.0 matches Some(t) && severity_rank(t) >= severity_rank(s)))
    &&& (loose.1 matches Some(c) ==> (strict.1 matches Some(d) && confidence_rank(d) >= confidence_rank(c)))
    &&& (loose.2 matches Some(id) ==> strict.2 == Some(id))
    &&& (loose.3 matches Some(t) ==> strict.3 == Some(t))
}

/// Tightening the criteria only removes findings: filtering with stricter criteria after
/// looser ones keeps exactly what the stricter criteria keep on their own.
pub proof fn law_stricter_filter_refines(strict: FilterView, loose: FilterView, fs: Seq<FindingRecord>)
    requires
        at_least_as_strict(strict, loose),
    ensures
        matching(strict, matching(loose, fs)) == matching(strict, fs),
    decreases fs.len(),
{
    if fs.len() > 0 {
        let init = fs.drop_last();
        let x = fs.last();
        law_stricter_filter_refines(strict, loose, init);
        if filter_matches(loose, x) {
            let m = matching(loose, init);
            assert(m.push(x).drop_last() =~= m);
            assert(m.push(x).last() == x);
        }
    }
}

/// The number of bytes in the UTF-8 encoding of `s`.
pub open spec fn utf8_total(s: Seq<char>) -> nat
    decreases s.len(),
{
    if s.len() == 0 {
        0
    } else {
        utf8_width(s[0]) + utf8_total(s.drop_first())
    }
}

proof fn lemma_cleaned_prefix_bounded(raw: Seq<char>, budget: nat)
    ensures
        utf8_total(cleaned_prefix(raw, budget)) <= budget,
        forall|i: int| 0 <= i < cleaned_prefix(raw, budget).len() ==> !is_control_char(
            #[trigger] cleaned_prefix(raw, budget)[i],
        ),
    decreases raw.len(),
{
    if raw.len() > 0 && utf8_width(cleaned_char(raw[0])) <= budget {
        let c = cleaned_char(raw[0]);
        let rest_budget = (budget - utf8_width(c)) as nat;
        let rest = cleaned_prefix(raw.drop_first(), rest_budget);
        lemma_cleaned_prefix_bounded(raw.drop_first(), rest_budget);
        let s = seq![c] + rest;
        assert(cleaned_prefix(raw, budget) == s);
        assert(s.drop_first() =~= rest);
        assert(s[0] == c);
        assert forall|i: int| 0 <= i < s.len() implies !is_control_char(#[trigger] s[i]) by {
            if i > 0 {
                assert(s[i] == rest[i - 1]);
            }
        }
    }
}

proof fn lemma_ascii_utf8_total(s: Seq<char>)
    requires
        forall|i: int| 0 <= i < s.len() ==> (#[trigger] s[i] as u32) < 0x80,
    ensures
        utf8_total(s) == s.len(),
    decreases s.len(),
{
    if s.len() > 0 {
        assert forall|i: int| 0 <= i < s.drop_first().len() implies (#[trigger] s.drop_first()[i] as u32) < 0x80 by {
            assert(s.drop_first()[i] == s[i + 1]);
        }
        lemma_ascii_utf8_total(s.drop_first());
    }
}

/// A detector error message is never empty, holds no control character, and its UTF-8
/// encoding fits in the message limit, whatever text it was made from.
pub proof fn law_error_message_bounded(raw: Seq<char>)
    ensures
        sanitized_message(raw).len() > 0,
        forall|i: int| 0 <= i < sanitized_message(raw).len() ==> !is_control_char(#[trigger] sanitized_message(raw)[i]),
        utf8_total(sanitized_message(raw)) <= MAX_DETECTOR_ERROR_MESSAGE_LENGTH,
{
    lemma_cleaned_prefix_bounded(raw, MAX_DETECTOR_ERROR_MESSAGE_LENGTH as nat);
    if cleaned_prefix(raw, MAX_DETECTOR_ERROR_MESSAGE_LENGTH as nat).len() == 0 {
        reveal_strlit("unspecified error");
        let u = "unspecified error"@;
        assert(u.len() == 17);
        assert forall|i: int| 0 <= i < u.len() implies (#[trigger] u[i] as u32) < 0x80 by {}
        lemma_ascii_utf8_total(u);
    }
}

proof fn lemma_safe_cut_bounds(s: Seq<char>, i: int, budget: int)
    requires
        0 <= i <= budget,
    ensures
        i <= safe_cut(s, i, budget) <= budget,
        safe_cut(s, i, budget) <= s.len() || safe_cut(s, i, budget) == i,
    decreases s.len() - i,
{
    if i < s.len() && i + crate::presentation::escape_token_len(s, i) <= budget {
        lemma_safe_cut_bounds(s, i + crate::presentation::escape_token_len(s, i), budget);
    }
}

/// Truncated text never exceeds the display width, and text that fits is kept as it is.
pub proof fn law_truncation_fits(s: Seq<char>, max_width: nat)
    ensures
        truncated_presentation(s, max_width).len() <= max_width,
        s.len() <= max_width ==> truncated_presentation(s, max_width) == s,
{
    reveal_strlit("...");
    if s.len() > max_width && max_width > 3 {
        lemma_safe_cut_bounds(s, 0, max_width - 3);
    }
}

/// The findings from position `p` on are correlated findings over the first `p`: each
/// carries its own position as its identifier and names at least two sources, each the
/// finding at that position among the first `p`, and every evidence reference and every
/// packet, flow and observation of its subject belongs to one of its sources.
pub open spec fn correlated_after(fs: Seq<FindingRecord>, p: int) -> bool {
    &&& 0 <= p <= fs.len()
    &&& forall|i: int|
        p <= i < fs.len() ==> {
            let f = #[trigger] fs[i];
            &&& f.reference.id == i
            &&& f.source_finding_references@.len() >= 2
            &&& sources_resolve(f.source_finding_references@, fs.take(p))
            &&& provenance_owned(f.source_finding_references@, fs.take(p), f.evidence_references@, f.subject.view_parts())
        }
}

/// The shape of a run with correlators: there is one correlator record per correlator, in
/// the registry's strictly increasing identifier order; and the findings end with correlated
/// findings over those before them (`correlated_after`).
pub proof fn law_correlated_run_shape<D: Detector, C: FindingCorrelator>(
    o: DetectionRunOutcome,
    detectors: Seq<D>,
    correlators: Seq<C>,
    configs: Seq<ConfigEntryView>,
    input: DetectionInput<'_>,
    limits: (usize, usize, usize, usize, usize),
)
    requires
        ids_sorted(correlator_ids(correlators)),
        correlated_outcome_consistent(o, detectors, correlators, configs, input, limits),
    ensures
        o.correlator_executions@.len() == correlators.len(),
        forall|k: int|
            0 <= k < correlators.len() ==> (#[trigger] o.correlator_executions@[k]).correlator_id@
                == correlator_ids(correlators)[k],
        forall|a: int, b: int|
            0 <= a < b < correlators.len() ==> detector_id_lt(
                (#[trigger] o.correlator_executions@[a]).correlator_id@,
                (#[trigger] o.correlator_executions@[b]).correlator_id@,
            ),
        exists|p: int| #[trigger] correlated_after(o.findings@, p),
{
    let crecs = o.correlator_executions@;
    let primary_partial = crate::engine::input_partial(input) || crate::engine::some_run_limited(
        o.detector_executions@,
    );
    assert forall|k: int| 0 <= k < correlators.len() implies (#[trigger] crecs[k]).correlator_id@
        == correlator_ids(correlators)[k] by {
        assert(correlator_record_consistent(crecs[k], correlators[k], configs, primary_partial));
    }
    assert forall|a: int, b: int| 0 <= a < b < correlators.len() implies detector_id_lt(
        (#[trigger] crecs[a]).correlator_id@,
        (#[trigger] crecs[b]).correlator_id@,
    ) by {
        assert(correlator_record_consistent(crecs[a], correlators[a], configs, primary_partial));
        assert(correlator_record_consistent(crecs[b], correlators[b], configs, primary_partial));
        lemma_ids_pairwise(correlator_ids(correlators), a, b);
    }
    let (p, starts, cstarts) = choose|p: int, starts: Seq<int>, cstarts: Seq<int>|
        #[trigger] outcome_layout(o, detectors, correlators, configs, input, limits, p, starts, cstarts);
    assert(findings_split(o, p, input));
    assert(correlated_after(o.findings@, p));
}

} // verus!

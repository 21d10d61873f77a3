//! Canonical order of finding drafts: by subject (packet, flow and observation references,
//! each compared lexicographically), then by title.

use vstd::prelude::*;
use vstd::multiset::Multiset;
use crate::domain::{
    observation_lt, protocol_rank, FindingDraft, FindingSubject, FlowReference, ObservationReference,
    PacketReference, SubjectView,
};
use crate::text::{compare_str, lemma_lex_lt_asymmetric, text_bytes, text_lt, Order};

verus! {

broadcast use {vstd::seq_lib::group_to_multiset_ensures, vstd::multiset::group_multiset_axioms};

/// Lexicographic order on packet references by ordinal (a proper prefix sorts first).
pub open spec fn packets_lt(a: Seq<PacketReference>, b: Seq<PacketReference>) -> bool
    decreases a.len(),
{
    if a.len() == 0 {
        b.len() > 0
    } else if b.len() == 0 {
        false
    } else if a[0].capture_record_ordinal < b[0].capture_record_ordinal {
        true
    } else if a[0].capture_record_ordinal > b[0].capture_record_ordinal {
        false
    } else {
        packets_lt(a.drop_first(), b.drop_first())
    }
}

/// Lexicographic order on flow references by ordinal (a proper prefix sorts first).
pub open spec fn flows_lt(a: Seq<FlowReference>, b: Seq<FlowReference>) -> bool
    decreases a.len(),
{
    if a.len() == 0 {
        b.len() > 0
    } else if b.len() == 0 {
        false
    } else if a[0].ordinal < b[0].ordinal {
        true
    } else if a[0].ordinal > b[0].ordinal {
        false
    } else {
        flows_lt(a.drop_first(), b.drop_first())
    }
}

/// Lexicographic order on observation references (a proper prefix sorts first).
pub open spec fn observations_lt(a: Seq<ObservationReference>, b: Seq<ObservationReference>) -> bool
    decreases a.len(),
{
    if a.len() == 0 {
        b.len() > 0
    } else if b.len() == 0 {
        false
    } else if observation_lt(a[0], b[0]) {
        true
    } else if observation_lt(b[0], a[0]) {
        false
    } else {
        observations_lt(a.drop_first(), b.drop_first())
    }
}

/// Strict order on subjects: packets, then flows, then observations.
pub open spec fn subject_lt(a: SubjectView, b: SubjectView) -> bool {
    ||| packets_lt(a.0, b.0)
    ||| (a.0 == b.0 && flows_lt(a.1, b.1))
    ||| (a.0 == b.0 && a.1 == b.1 && observations_lt(a.2, b.2))
}

/// Strict canonical order on drafts: subject, then title.
pub open spec fn draft_lt(a: FindingDraft, b: FindingDraft) -> bool {
    ||| subject_lt(a.subject.view_parts(), b.subject.view_parts())
    ||| (a.subject.view_parts() == b.subject.view_parts() && text_lt(a.title@, b.title@))
}

proof fn lemma_packets_lt_asymmetric(a: Seq<PacketReference>, b: Seq<PacketReference>)
    ensures
        packets_lt(a, b) ==> !packets_lt(b, a),
        !packets_lt(a, a),
    decreases a.len(),
{
    if a.len() > 0 && b.len() > 0 {
        lemma_packets_lt_asymmetric(a.drop_first(), b.drop_first());
    }
    if a.len() > 0 {
        lemma_packets_lt_asymmetric(a.drop_first(), a.drop_first());
    }
}

proof fn lemma_flows_lt_asymmetric(a: Seq<FlowReference>, b: Seq<FlowReference>)
    ensures
        flows_lt(a, b) ==> !flows_lt(b, a),
        !flows_lt(a, a),
    decreases a.len(),
{
    if a.len() > 0 && b.len() > 0 {
        lemma_flows_lt_asymmetric(a.drop_first(), b.drop_first());
    }
    if a.len() > 0 {
        lemma_flows_lt_asymmetric(a.drop_first(), a.drop_first());
    }
}

proof fn lemma_observations_lt_asymmetric(a: Seq<ObservationReference>, b: Seq<ObservationReference>)
    ensures
        observations_lt(a, b) ==> !observations_lt(b, a),
        !observations_lt(a, a),
    decreases a.len(),
{
    if a.len() > 0 && b.len() > 0 {
        lemma_observations_lt_asymmetric(a.drop_first(), b.drop_first());
    }
    if a.len() > 0 {
        lemma_observations_lt_asymmetric(a.drop_first(), a.drop_first());
    }
}

/// The canonical order on drafts is asymmetric.
pub proof fn lemma_draft_lt_asymmetric(a: FindingDraft, b: FindingDraft)
    ensures
        draft_lt(a, b) ==> !draft_lt(b, a),
{
    let sa = a.subject.view_parts();
    let sb = b.subject.view_parts();
    lemma_packets_lt_asymmetric(sa.0, sb.0);
    lemma_packets_lt_asymmetric(sb.0, sa.0);
    lemma_flows_lt_asymmetric(sa.1, sb.1);
    lemma_flows_lt_asymmetric(sb.1, sa.1);
    lemma_observations_lt_asymmetric(sa.2, sb.2);
    lemma_observations_lt_asymmetric(sb.2, sa.2);
    lemma_lex_lt_asymmetric(text_bytes(a.title@), text_bytes(b.title@));
    lemma_lex_lt_asymmetric(text_bytes(b.title@), text_bytes(a.title@));
}

proof fn lemma_packets_lt_transitive(a: Seq<PacketReference>, b: Seq<PacketReference>, c: Seq<PacketReference>)
    requires
        packets_lt(a, b),
        packets_lt(b, c),
    ensures
        packets_lt(a, c),
    decreases a.len(),
{
    if a.len() > 0 && b.len() > 0 && c.len() > 0 {
        if a[0].capture_record_ordinal == b[0].capture_record_ordinal
            && b[0].capture_record_ordinal == c[0].capture_record_ordinal {
            lemma_packets_lt_transitive(a.drop_first(), b.drop_first(), c.drop_first());
        }
    }
}

proof fn lemma_packets_lt_total(a: Seq<PacketReference>, b: Seq<PacketReference>)
    ensures
        a != b ==> packets_lt(a, b) || packets_lt(b, a),
    decreases a.len(),
{
    if a.len() > 0 && b.len() > 0 && a[0].capture_record_ordinal == b[0].capture_record_ordinal {
        lemma_packets_lt_total(a.drop_first(), b.drop_first());
        if a.drop_first() == b.drop_first() {
            assert(a[0] == b[0]);
            assert(a =~= b) by {
                assert forall|i: int| 0 <= i < a.len() implies a[i] == b[i] by {
                    if i > 0 {
                        assert(a[i] == a.drop_first()[i - 1]);
                        assert(b[i] == b.drop_first()[i - 1]);
                    }
                }
            }
        }
    } else if a.len() == 0 && b.len() == 0 {
        assert(a =~= b);
    }
}

proof fn lemma_flows_lt_transitive(a: Seq<FlowReference>, b: Seq<FlowReference>, c: Seq<FlowReference>)
    requires
        flows_lt(a, b),
        flows_lt(b, c),
    ensures
        flows_lt(a, c),
    decreases a.len(),
{
    if a.len() > 0 && b.len() > 0 && c.len() > 0 {
        if a[0].ordinal == b[0].ordinal && b[0].ordinal == c[0].ordinal {
            lemma_flows_lt_transitive(a.drop_first(), b.drop_first(), c.drop_first());
        }
    }
}

proof fn lemma_flows_lt_total(a: Seq<FlowReference>, b: Seq<FlowReference>)
    ensures
        a != b ==> flows_lt(a, b) || flows_lt(b, a),
    decreases a.len(),
{
    if a.len() > 0 && b.len() > 0 && a[0].ordinal == b[0].ordinal {
        lemma_flows_lt_total(a.drop_first(), b.drop_first());
        if a.drop_first() == b.drop_first() {
            assert(a[0] == b[0]);
            assert(a =~= b) by {
                assert forall|i: int| 0 <= i < a.len() implies a[i] == b[i] by {
                    if i > 0 {
                        assert(a[i] == a.drop_first()[i - 1]);
                        assert(b[i] == b.drop_first()[i - 1]);
                    }
                }
            }
        }
    } else if a.len() == 0 && b.len() == 0 {
        assert(a =~= b);
    }
}

proof fn lemma_observations_lt_transitive(
    a: Seq<ObservationReference>,
    b: Seq<ObservationReference>,
    c: Seq<ObservationReference>,
)
    requires
        observations_lt(a, b),
        observations_lt(b, c),
    ensures
        observations_lt(a, c),
    decreases a.len(),
{
    if a.len() > 0 && b.len() > 0 && c.len() > 0 {
        if !observation_lt(a[0], b[0]) && !observation_lt(b[0], a[0]) && !observation_lt(b[0], c[0])
            && !observation_lt(c[0], b[0]) {
            lemma_observations_lt_transitive(a.drop_first(), b.drop_first(), c.drop_first());
        }
    }
}

proof fn lemma_observations_lt_total(a: Seq<ObservationReference>, b: Seq<ObservationReference>)
    ensures
        a != b ==> observations_lt(a, b) || observations_lt(b, a),
    decreases a.len(),
{
    if a.len() > 0 && b.len() > 0 && !observation_lt(a[0], b[0]) && !observation_lt(b[0], a[0]) {
        assert(a[0].protocol == b[0].protocol) by {
            if a[0].protocol != b[0].protocol {
                assert(protocol_rank(a[0].protocol) != protocol_rank(b[0].protocol));
            }
        }
        assert(a[0] == b[0]);
        lemma_observations_lt_total(a.drop_first(), b.drop_first());
        if a.drop_first() == b.drop_first() {
            assert(a =~= b) by {
                assert forall|i: int| 0 <= i < a.len() implies a[i] == b[i] by {
                    if i > 0 {
                        assert(a[i] == a.drop_first()[i - 1]);
                        assert(b[i] == b.drop_first()[i - 1]);
                    }
                }
            }
        }
    } else if a.len() == 0 && b.len() == 0 {
        assert(a =~= b);
    }
}

/// The canonical order on subjects is a strict total order.
pub proof fn lemma_subject_lt_order(a: SubjectView, b: SubjectView, c: SubjectView)
    ensures
        subject_lt(a, b) ==> !subject_lt(b, a),
        a != b ==> subject_lt(a, b) || subject_lt(b, a),
        subject_lt(a, b) && subject_lt(b, c) ==> subject_lt(a, c),
{
    lemma_packets_lt_asymmetric(a.0, b.0);
    lemma_packets_lt_asymmetric(b.0, a.0);
    lemma_flows_lt_asymmetric(a.1, b.1);
    lemma_flows_lt_asymmetric(b.1, a.1);
    lemma_observations_lt_asymmetric(a.2, b.2);
    lemma_observations_lt_asymmetric(b.2, a.2);
    lemma_packets_lt_total(a.0, b.0);
    lemma_flows_lt_total(a.1, b.1);
    lemma_observations_lt_total(a.2, b.2);
    if a != b && a.0 == b.0 && a.1 == b.1 {
        assert(a.2 != b.2);
    }
    if subject_lt(a, b) && subject_lt(b, c) {
        if packets_lt(a.0, b.0) && packets_lt(b.0, c.0) {
            lemma_packets_lt_transitive(a.0, b.0, c.0);
        }
        if a.0 == b.0 && b.0 == c.0 {
            if flows_lt(a.1, b.1) && flows_lt(b.1, c.1) {
                lemma_flows_lt_transitive(a.1, b.1, c.1);
            }
            if a.1 == b.1 && b.1 == c.1 && observations_lt(a.2, b.2) && observations_lt(b.2, c.2) {
                lemma_observations_lt_transitive(a.2, b.2, c.2);
            }
        }
    }
}

/// Drafts in canonical order whose neighbours never share a subject have pairwise distinct
/// subjects, strictly increasing in subject order.
pub proof fn lemma_canonical_subjects_distinct(s: Seq<FindingDraft>, i: int, j: int)
    requires
        drafts_canonical(s),
        forall|k: int| 0 <= k < s.len() - 1 ==> !#[trigger] crate::engine::same_subject_at(s, k),
        0 <= i < j < s.len(),
    ensures
        subject_lt(s[i].subject.view_parts(), s[j].subject.view_parts()),
        s[i].subject.view_parts() != s[j].subject.view_parts(),
    decreases j - i,
{
    let k = j - 1;
    assert(!draft_lt(s[k + 1], s[k]));
    assert(!crate::engine::same_subject_at(s, k));
    lemma_subject_lt_order(s[k].subject.view_parts(), s[j].subject.view_parts(), s[j].subject.view_parts());
    if i < k {
        lemma_canonical_subjects_distinct(s, i, k);
        lemma_subject_lt_order(s[i].subject.view_parts(), s[k].subject.view_parts(), s[j].subject.view_parts());
    }
    lemma_subject_lt_order(s[i].subject.view_parts(), s[j].subject.view_parts(), s[i].subject.view_parts());
}

fn compare_packets(a: &Vec<PacketReference>, b: &Vec<PacketReference>) -> (o: Order)
    ensures
        (o == Order::Less) == packets_lt(a@, b@),
        (o == Order::Greater) == packets_lt(b@, a@),
        (o == Order::Equal) == (a@ == b@),
{
    proof {
        lemma_packets_lt_asymmetric(a@, b@);
    }
    let n = a.len();
    let m = b.len();
    let mut i: usize = 0;
    assert(a@.skip(0) =~= a@);
    assert(b@.skip(0) =~= b@);
    assert(a@.take(0) =~= b@.take(0));
    while i < n && i < m
        invariant
            n == a@.len(),
            m == b@.len(),
            i <= n,
            i <= m,
            a@.take(i as int) == b@.take(i as int),
            packets_lt(a@, b@) == packets_lt(a@.skip(i as int), b@.skip(i as int)),
            packets_lt(b@, a@) == packets_lt(b@.skip(i as int), a@.skip(i as int)),
        decreases n - i,
    {
        assert(a@.skip(i as int)[0] == a@[i as int]);
        assert(b@.skip(i as int)[0] == b@[i as int]);
        assert(a@.skip(i as int).drop_first() =~= a@.skip(i + 1));
        assert(b@.skip(i as int).drop_first() =~= b@.skip(i + 1));
        let x = a[i].capture_record_ordinal;
        let y = b[i].capture_record_ordinal;
        if x < y {
            assert(a@ != b@ ==> true);
            assert(a@[i as int] != b@[i as int]);
            return Order::Less;
        }
        if x > y {
            assert(a@[i as int] != b@[i as int]);
            return Order::Greater;
        }
        assert(a@[i as int] == b@[i as int]);
        assert(a@.take(i + 1) =~= a@.take(i as int).push(a@[i as int]));
        assert(b@.take(i + 1) =~= b@.take(i as int).push(b@[i as int]));
        i = i + 1;
    }
    if n < m {
        assert(a@.skip(i as int).len() == 0);
        assert(a@.len() != b@.len());
        Order::Less
    } else if n > m {
        assert(b@.skip(i as int).len() == 0);
        Order::Greater
    } else {
        assert(a@ =~= a@.take(n as int));
        assert(b@ =~= b@.take(m as int));
        Order::Equal
    }
}

fn compare_flows(a: &Vec<FlowReference>, b: &Vec<FlowReference>) -> (o: Order)
    ensures
        (o == Order::Less) == flows_lt(a@, b@),
        (o == Order::Greater) == flows_lt(b@, a@),
        (o == Order::Equal) == (a@ == b@),
{
    proof {
        lemma_flows_lt_asymmetric(a@, b@);
    }
    let n = a.len();
    let m = b.len();
    let mut i: usize = 0;
    assert(a@.skip(0) =~= a@);
    assert(b@.skip(0) =~= b@);
    assert(a@.take(0) =~= b@.take(0));
    while i < n && i < m
        invariant
            n == a@.len(),
            m == b@.len(),
            i <= n,
            i <= m,
            a@.take(i as int) == b@.take(i as int),
            flows_lt(a@, b@) == flows_lt(a@.skip(i as int), b@.skip(i as int)),
            flows_lt(b@, a@) == flows_lt(b@.skip(i as int), a@.skip(i as int)),
        decreases n - i,
    {
        assert(a@.skip(i as int)[0] == a@[i as int]);
        assert(b@.skip(i as int)[0] == b@[i as int]);
        assert(a@.skip(i as int).drop_first() =~= a@.skip(i + 1));
        assert(b@.skip(i as int).drop_first() =~= b@.skip(i + 1));
        let x = a[i].ordinal;
        let y = b[i].ordinal;
        if x < y {
            assert(a@[i as int] != b@[i as int]);
            return Order::Less;
        }
        if x > y {
            assert(a@[i as int] != b@[i as int]);
            return Order::Greater;
        }
        assert(a@[i as int] == b@[i as int]);
        assert(a@.take(i + 1) =~= a@.take(i as int).push(a@[i as int]));
        assert(b@.take(i + 1) =~= b@.take(i as int).push(b@[i as int]));
        i = i + 1;
    }
    if n < m {
        assert(a@.skip(i as int).len() == 0);
        assert(a@.len() != b@.len());
        Order::Less
    } else if n > m {
        assert(b@.skip(i as int).len() == 0);
        Order::Greater
    } else {
        assert(a@ =~= a@.take(n as int));
        assert(b@ =~= b@.take(m as int));
        Order::Equal
    }
}

fn compare_observations(a: &Vec<ObservationReference>, b: &Vec<ObservationReference>) -> (o: Order)
    ensures
        (o == Order::Less) == observations_lt(a@, b@),
        (o == Order::Greater) == observations_lt(b@, a@),
        (o == Order::Equal) == (a@ == b@),
{
    proof {
        lemma_observations_lt_asymmetric(a@, b@);
    }
    let n = a.len();
    let m = b.len();
    let mut i: usize = 0;
    assert(a@.skip(0) =~= a@);
    assert(b@.skip(0) =~= b@);
    assert(a@.take(0) =~= b@.take(0));
    while i < n && i < m
        invariant
            n == a@.len(),
            m == b@.len(),
            i <= n,
            i <= m,
            a@.take(i as int) == b@.take(i as int),
            observations_lt(a@, b@) == observations_lt(a@.skip(i as int), b@.skip(i as int)),
            observations_lt(b@, a@) == observations_lt(b@.skip(i as int), a@.skip(i as int)),
        decreases n - i,
    {
        assert(a@.skip(i as int)[0] == a@[i as int]);
        assert(b@.skip(i as int)[0] == b@[i as int]);
        assert(a@.skip(i as int).drop_first() =~= a@.skip(i + 1));
        assert(b@.skip(i as int).drop_first() =~= b@.skip(i + 1));
        let x = a[i];
        let y = b[i];
        if x.lt(&y) {
            assert(a@[i as int] != b@[i as int]);
            return Order::Less;
        }
        if y.lt(&x) {
            assert(a@[i as int] != b@[i as int]);
            return Order::Greater;
        }
        assert(x == y) by {
            if x.protocol != y.protocol {
                assert(protocol_rank(x.protocol) != protocol_rank(y.protocol));
            }
        }
        assert(a@.take(i + 1) =~= a@.take(i as int).push(a@[i as int]));
        assert(b@.take(i + 1) =~= b@.take(i as int).push(b@[i as int]));
        i = i + 1;
    }
    if n < m {
        assert(a@.skip(i as int).len() == 0);
        assert(a@.len() != b@.len());
        Order::Less
    } else if n > m {
        assert(b@.skip(i as int).len() == 0);
        Order::Greater
    } else {
        assert(a@ =~= a@.take(n as int));
        assert(b@ =~= b@.take(m as int));
        Order::Equal
    }
}

/// Compares two subjects in canonical order.
pub fn compare_subjects(a: &FindingSubject, b: &FindingSubject) -> (o: Order)
    ensures
        (o == Order::Less) == subject_lt(a.view_parts(), b.view_parts()),
        (o == Order::Greater) == subject_lt(b.view_parts(), a.view_parts()),
        (o == Order::Equal) == (a.view_parts() == b.view_parts()),
{
    match compare_packets(&a.packet_references, &b.packet_references) {
        Order::Less => {
            return Order::Less;
        },
        Order::Greater => {
            return Order::Greater;
        },
        Order::Equal => {},
    }
    match compare_flows(&a.flow_references, &b.flow_references) {
        Order::Less => {
            return Order::Less;
        },
        Order::Greater => {
            return Order::Greater;
        },
        Order::Equal => {},
    }
    compare_observations(&a.observation_references, &b.observation_references)
}

/// Whether `a` sorts strictly before `b` in canonical draft order.
fn draft_precedes(a: &FindingDraft, b: &FindingDraft) -> (r: bool)
    ensures
        r == draft_lt(*a, *b),
{
    match compare_subjects(&a.subject, &b.subject) {
        Order::Less => true,
        Order::Greater => false,
        Order::Equal => match compare_str(a.title.as_str(), b.title.as_str()) {
            Order::Less => true,
            _ => false,
        },
    }
}

/// Neighbours never sort strictly out of order.
pub open spec fn drafts_canonical(s: Seq<FindingDraft>) -> bool {
    forall|i: int| 0 <= i < s.len() - 1 ==> !#[trigger] draft_lt(s[i + 1], s[i])
}

/// Sorts drafts into canonical order, keeping drafts with equal keys in their original order.
pub fn sort_drafts(drafts: Vec<FindingDraft>) -> (r: Vec<FindingDraft>)
    ensures
        r@.to_multiset() == drafts@.to_multiset(),
        r@.len() == drafts@.len(),
        drafts_canonical(r@),
{
    let mut rest = drafts;
    let mut out: Vec<FindingDraft> = Vec::new();
    proof {
        assert(out@.to_multiset() =~= Multiset::<FindingDraft>::empty());
        assert(out@.to_multiset().add(rest@.to_multiset()) =~= rest@.to_multiset());
    }
    while rest.len() > 0
        invariant
            out@.to_multiset().add(rest@.to_multiset()) == drafts@.to_multiset(),
            out@.len() + rest@.len() == drafts@.len(),
            drafts_canonical(out@),
        decreases rest@.len(),
    {
        let ghost before_rest = rest@;
        let ghost before_out = out@;
        let d = rest.remove(0);
        let n = out.len();
        let mut j: usize = 0;
        loop
            invariant
                j <= n,
                n == out@.len(),
                out@ == before_out,
                forall|m: int| 0 <= m < j ==> !#[trigger] draft_lt(d, out@[m]),
            ensures
                j <= n,
                forall|m: int| 0 <= m < j ==> !#[trigger] draft_lt(d, out@[m]),
                j < n ==> draft_lt(d, out@[j as int]),
            decreases n - j,
        {
            if j >= n {
                break;
            }
            if draft_precedes(&d, &out[j]) {
                break;
            }
            j = j + 1;
        }
        out.insert(j, d);
        proof {
            assert(before_rest.remove(0).to_multiset() == before_rest.to_multiset().remove(before_rest[0]));
            assert(before_out.insert(j as int, d).to_multiset() == before_out.to_multiset().insert(d));
            assert(out@.to_multiset().add(rest@.to_multiset()) =~= drafts@.to_multiset());
            assert forall|i: int| 0 <= i < out@.len() - 1 implies !#[trigger] draft_lt(out@[i + 1], out@[i]) by {
                if i + 1 < j {
                    assert(out@[i] == before_out[i]);
                    assert(out@[i + 1] == before_out[i + 1]);
                    assert(!draft_lt(before_out[i + 1], before_out[i]));
                } else if i + 1 == j {
                    assert(out@[i] == before_out[i]);
                    assert(out@[i + 1] == d);
                    assert(!draft_lt(d, before_out[i]));
                } else if i == j {
                    assert(out@[i] == d);
                    assert(out@[i + 1] == before_out[i]);
                    lemma_draft_lt_asymmetric(d, before_out[i]);
                } else {
                    assert(out@[i] == before_out[i - 1]);
                    assert(out@[i + 1] == before_out[i]);
                    let k = i - 1;
                    assert(!draft_lt(before_out[k + 1], before_out[k]));
                    assert(before_out[k + 1] == before_out[i]);
                }
            }
        }
    }
    proof {
        assert(rest@.len() == 0);
        assert(rest@.to_multiset() =~= Multiset::<FindingDraft>::empty());
        assert(out@.to_multiset().add(rest@.to_multiset()) =~= out@.to_multiset());
    }
    out
}

} // verus!

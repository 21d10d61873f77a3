//! Strictly sorted sequences and the uniqueness of canonical order.

use vstd::prelude::*;

verus! {

/// `lt` is asymmetric: no two values precede each other (hence no value precedes itself).
pub open spec fn asymmetric<T>(lt: spec_fn(T, T) -> bool) -> bool {
    forall|x: T, y: T| #[trigger] lt(x, y) ==> !lt(y, x)
}

/// Every element precedes every later element.
pub open spec fn strictly_sorted<T>(s: Seq<T>, lt: spec_fn(T, T) -> bool) -> bool {
    forall|i: int, j: int| 0 <= i < j < s.len() ==> #[trigger] lt(s[i], s[j])
}

/// Two sequences strictly sorted by the same asymmetric order and holding the same elements
/// are equal: the canonical order of a set of elements does not depend on how it was built.
pub proof fn lemma_sorted_unique<T>(a: Seq<T>, b: Seq<T>, lt: spec_fn(T, T) -> bool)
    requires
        asymmetric(lt),
        strictly_sorted(a, lt),
        strictly_sorted(b, lt),
        forall|x: T| a.contains(x) <==> b.contains(x),
    ensures
        a == b,
    decreases a.len() + b.len(),
{
    if a.len() == 0 {
        if b.len() > 0 {
            assert(b.contains(b[0]));
        }
        assert(a =~= b);
    } else {
        assert(a.contains(a[0]));
        assert(b.contains(a[0]));
        let j = choose|j: int| 0 <= j < b.len() && b[j] == a[0];
        assert(b.contains(b[0]));
        assert(a.contains(b[0]));
        let i = choose|i: int| 0 <= i < a.len() && a[i] == b[0];
        if a[0] != b[0] {
            assert(j > 0);
            assert(i > 0);
            assert(lt(b[0], b[j]));
            assert(lt(a[0], a[i]));
            assert(false);
        }
        let a1 = a.drop_first();
        let b1 = b.drop_first();
        assert forall|x: T| a1.contains(x) <==> b1.contains(x) by {
            if a1.contains(x) {
                let k = choose|k: int| 0 <= k < a1.len() && a1[k] == x;
                assert(lt(a[0], a[k + 1]));
                assert(a.contains(x)) by {
                    assert(a[k + 1] == x);
                }
                assert(b.contains(x));
                let m = choose|m: int| 0 <= m < b.len() && b[m] == x;
                if m == 0 {
                    assert(lt(a[0], a[0]));
                    assert(false);
                }
                assert(b1[m - 1] == x);
            }
            if b1.contains(x) {
                let k = choose|k: int| 0 <= k < b1.len() && b1[k] == x;
                assert(lt(b[0], b[k + 1]));
                assert(b.contains(x)) by {
                    assert(b[k + 1] == x);
                }
                assert(a.contains(x));
                let m = choose|m: int| 0 <= m < a.len() && a[m] == x;
                if m == 0 {
                    assert(lt(b[0], b[0]));
                    assert(false);
                }
                assert(a1[m - 1] == x);
            }
        }
        assert forall|p: int, q: int| 0 <= p < q < a1.len() implies #[trigger] lt(a1[p], a1[q]) by {
            assert(lt(a[p + 1], a[q + 1]));
        }
        assert forall|p: int, q: int| 0 <= p < q < b1.len() implies #[trigger] lt(b1[p], b1[q]) by {
            assert(lt(b[p + 1], b[q + 1]));
        }
        lemma_sorted_unique(a1, b1, lt);
        assert(a =~= b) by {
            assert forall|k: int| 0 <= k < a.len() implies a[k] == b[k] by {
                if k > 0 {
                    assert(a[k] == a1[k - 1]);
                    assert(b[k] == b1[k - 1]);
                }
            }
        }
    }
}

} // verus!

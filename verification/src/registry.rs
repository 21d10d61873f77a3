//! Deterministic, bounded registry for active detectors.

use vstd::prelude::*;
use crate::detector::Detector;
use crate::domain::{detector_id_lt, DetectorId};
use crate::error::DetectorRegistryError;
use crate::text::{lemma_lex_lt_irreflexive, lemma_lex_lt_transitive, text_bytes, Order};

verus! {

/// Default maximum number of registered detectors.
pub const DEFAULT_MAX_REGISTERED_DETECTORS: usize = 64;

/// Hard maximum cap on registered detectors.
pub const HARD_MAX_REGISTERED_DETECTORS: usize = 256;

/// Identifiers strictly increase between neighbours.
pub open spec fn ids_sorted(ids: Seq<Seq<char>>) -> bool {
    forall|i: int| 0 <= i < ids.len() - 1 ==> #[trigger] detector_id_lt(ids[i], ids[i + 1])
}

/// Neighbour-wise sorted identifiers are pairwise sorted, hence distinct.
pub proof fn lemma_ids_pairwise(ids: Seq<Seq<char>>, i: int, j: int)
    requires
        ids_sorted(ids),
        0 <= i < j < ids.len(),
    ensures
        detector_id_lt(ids[i], ids[j]),
        ids[i] != ids[j],
    decreases j - i,
{
    if j == i + 1 {
        assert(detector_id_lt(ids[i], ids[i + 1]));
    } else {
        lemma_ids_pairwise(ids, i, j - 1);
        let k = j - 1;
        assert(detector_id_lt(ids[k], ids[k + 1]));
        lemma_lex_lt_transitive(text_bytes(ids[i]), text_bytes(ids[k]), text_bytes(ids[j]));
    }
    lemma_lex_lt_irreflexive(text_bytes(ids[i]));
}

/// The identifiers of a sequence of detectors.
pub open spec fn detector_ids<D: Detector>(s: Seq<D>) -> Seq<Seq<char>> {
    s.map_values(|d: D| d.spec_metadata().spec_id())
}

/// Deterministic, bounded registry of detectors.
///
/// Identifiers are unique and detectors are kept in canonical identifier order, whatever
/// the registration sequence.
pub struct DetectorRegistry<D: Detector> {
    detectors: Vec<D>,
    max_capacity: usize,
}

impl<D: Detector> DetectorRegistry<D> {
    /// The registered detectors, in canonical order.
    pub closed spec fn spec_detectors(&self) -> Seq<D> {
        self.detectors@
    }

    /// The configured capacity.
    pub closed spec fn spec_capacity(&self) -> nat {
        self.max_capacity as nat
    }

    /// Identifiers of the registered detectors, in canonical order.
    pub open spec fn ids(&self) -> Seq<Seq<char>> {
        detector_ids(self.spec_detectors())
    }

    /// Sorted unique identifiers; the count is within a capacity in range.
    #[verifier::type_invariant]
    closed spec fn inv(self) -> bool {
        &&& ids_sorted(detector_ids(self.detectors@))
        &&& self.detectors@.len() <= self.max_capacity
        &&& 0 < self.max_capacity <= HARD_MAX_REGISTERED_DETECTORS
    }

    /// Creates an empty registry with the given capacity, which must be between 1 and
    /// [`HARD_MAX_REGISTERED_DETECTORS`].
    pub fn new(max_capacity: usize) -> (r: Result<DetectorRegistry<D>, DetectorRegistryError>)
        ensures
            r is Ok <==> 0 < max_capacity <= HARD_MAX_REGISTERED_DETECTORS,
            r matches Ok(reg) ==> reg.spec_detectors() == Seq::<D>::empty() && reg.spec_capacity()
                == max_capacity,
            max_capacity == 0 ==> r matches Err(DetectorRegistryError::ZeroRegistryCapacity),
            max_capacity > HARD_MAX_REGISTERED_DETECTORS ==> (r matches Err(
                DetectorRegistryError::RegistryCapacityAboveHardMaximum { attempted, max },
            ) && attempted == max_capacity && max == HARD_MAX_REGISTERED_DETECTORS),
    {
        if max_capacity == 0 {
            return Err(DetectorRegistryError::ZeroRegistryCapacity);
        }
        if max_capacity > HARD_MAX_REGISTERED_DETECTORS {
            return Err(
                DetectorRegistryError::RegistryCapacityAboveHardMaximum {
                    attempted: max_capacity,
                    max: HARD_MAX_REGISTERED_DETECTORS,
                },
            );
        }
        Ok(DetectorRegistry { detectors: Vec::new(), max_capacity })
    }

    /// Creates an empty registry with the default capacity.
    pub fn with_default_capacity() -> (reg: DetectorRegistry<D>)
        ensures
            reg.spec_detectors() == Seq::<D>::empty(),
            reg.spec_capacity() == DEFAULT_MAX_REGISTERED_DETECTORS,
    {
        DetectorRegistry { detectors: Vec::new(), max_capacity: DEFAULT_MAX_REGISTERED_DETECTORS }
    }

    /// Registers a detector. Fails when the registry is full, or when a detector with the
    /// same identifier is registered; otherwise inserts it at its canonical position.
    pub fn register(&mut self, detector: D) -> (r: Result<(), DetectorRegistryError>)
        ensures
            final(self).spec_capacity() == old(self).spec_capacity(),
            r is Ok <==> old(self).spec_detectors().len() < old(self).spec_capacity() && !old(
                self,
            ).ids().contains(detector.spec_metadata().spec_id()),
            r is Err ==> final(self).spec_detectors() == old(self).spec_detectors(),
            r is Ok ==> exists|i: int|
                0 <= i <= old(self).spec_detectors().len() && final(self).spec_detectors() == old(
                    self,
                ).spec_detectors().insert(i, detector),
            old(self).spec_detectors().len() >= old(self).spec_capacity() ==> (r matches Err(
                DetectorRegistryError::RegistryCapacityExceeded { count, max },
            ) && count == old(self).spec_detectors().len() + 1 && max == old(self).spec_capacity()),
            old(self).spec_detectors().len() < old(self).spec_capacity() && old(self).ids().contains(
                detector.spec_metadata().spec_id(),
            ) ==> (r matches Err(DetectorRegistryError::DuplicateDetectorId(id)) && id@
                == detector.spec_metadata().spec_id()),
    {
        proof { use_type_invariant(&*self); }
        let n = self.detectors.len();
        if n >= self.max_capacity {
            return Err(DetectorRegistryError::RegistryCapacityExceeded { count: n + 1, max: self.max_capacity });
        }
        let ghost old_ids = self.ids();
        let ghost new_id = detector.spec_metadata().spec_id();
        let mut i: usize = 0;
        while i < n
            invariant
                *self == *old(self),
                n == self.detectors@.len(),
                n < self.max_capacity,
                old_ids == self.ids(),
                old_ids.len() == n,
                new_id == detector.spec_metadata().spec_id(),
                ids_sorted(old_ids),
                i <= n,
                forall|j: int| 0 <= j < i ==> #[trigger] detector_id_lt(old_ids[j], new_id),
            ensures
                i <= n,
                forall|j: int| 0 <= j < i ==> #[trigger] detector_id_lt(old_ids[j], new_id),
                i == n || detector_id_lt(new_id, old_ids[i as int]),
            decreases n - i,
        {
            assert(old_ids[i as int] == self.detectors@[i as int].spec_metadata().spec_id());
            let o = self.detectors[i].metadata().id().compare(detector.metadata().id());
            match o {
                Order::Equal => {
                    assert(old_ids[i as int] == new_id);
                    return Err(DetectorRegistryError::DuplicateDetectorId(detector.metadata().id().duplicate()));
                },
                Order::Greater => {
                    break;
                },
                Order::Less => {},
            }
            i = i + 1;
        }
        proof {
            assert forall|j: int| 0 <= j < old_ids.len() implies old_ids[j] != new_id by {
                if j < i {
                    assert(detector_id_lt(old_ids[j], new_id));
                    lemma_lex_lt_irreflexive(text_bytes(new_id));
                } else {
                    assert(i < n);
                    assert(detector_id_lt(new_id, old_ids[i as int]));
                    if j > i {
                        lemma_ids_pairwise(old_ids, i as int, j);
                        lemma_lex_lt_transitive(
                            text_bytes(new_id),
                            text_bytes(old_ids[i as int]),
                            text_bytes(old_ids[j]),
                        );
                    }
                    lemma_lex_lt_irreflexive(text_bytes(new_id));
                }
            }
            assert(!old_ids.contains(new_id));
        }
        let ghost before = self.detectors@;
        let mut taken = DetectorRegistry { detectors: Vec::new(), max_capacity: self.max_capacity };
        std::mem::swap(&mut taken, self);
        let DetectorRegistry { mut detectors, max_capacity } = taken;
        detectors.insert(i, detector);
        proof {
            let ids = detector_ids(detectors@);
            assert(ids =~= old_ids.insert(i as int, new_id));
            assert forall|j: int| 0 <= j < ids.len() - 1 implies #[trigger] detector_id_lt(
                ids[j],
                ids[j + 1],
            ) by {
                if j + 1 < i {
                    assert(ids[j] == old_ids[j]);
                    assert(ids[j + 1] == old_ids[j + 1]);
                    assert(detector_id_lt(old_ids[j], old_ids[j + 1]));
                } else if j + 1 == i {
                    assert(ids[j] == old_ids[j]);
                    assert(ids[j + 1] == new_id);
                    assert(detector_id_lt(old_ids[j], new_id));
                } else if j == i {
                    assert(ids[j] == new_id);
                    assert(ids[j + 1] == old_ids[i as int]);
                } else {
                    let k = j - 1;
                    assert(ids[j] == old_ids[k]);
                    assert(ids[j + 1] == old_ids[k + 1]);
                    assert(detector_id_lt(old_ids[k], old_ids[k + 1]));
                }
            }
        }
        *self = DetectorRegistry { detectors, max_capacity };
        Ok(())
    }

    /// Returns the number of registered detectors.
    pub fn len(&self) -> (n: usize)
        ensures
            n == self.spec_detectors().len(),
            n <= self.spec_capacity(),
    {
        proof { use_type_invariant(self); }
        self.detectors.len()
    }

    /// Returns `true` if the registry contains zero detectors.
    pub fn is_empty(&self) -> (b: bool)
        ensures
            b == (self.spec_detectors().len() == 0),
    {
        self.detectors.len() == 0
    }

    /// Returns the maximum capacity of the registry.
    pub fn capacity(&self) -> (c: usize)
        ensures
            c == self.spec_capacity(),
            0 < c <= HARD_MAX_REGISTERED_DETECTORS,
    {
        proof { use_type_invariant(self); }
        self.max_capacity
    }

    /// Looks up a registered detector by its identifier.
    pub fn get(&self, id: &DetectorId) -> (r: Option<&D>)
        ensures
            r is Some <==> self.ids().contains(id@),
            r matches Some(d) ==> d.spec_metadata().spec_id() == id@ && self.spec_detectors().contains(
                *d,
            ),
    {
        let n = self.detectors.len();
        let mut i: usize = 0;
        while i < n
            invariant
                n == self.detectors@.len(),
                i <= n,
                forall|j: int| 0 <= j < i ==> self.ids()[j] != id@,
            decreases n - i,
        {
            assert(self.ids()[i as int] == self.detectors@[i as int].spec_metadata().spec_id());
            if self.detectors[i].metadata().id().equals(id) {
                return Some(&self.detectors[i]);
            }
            i = i + 1;
        }
        None
    }

    /// The registered detectors in canonical identifier order.
    pub fn detectors(&self) -> (s: &[D])
        ensures
            s@ == self.spec_detectors(),
            ids_sorted(self.ids()),
    {
        proof { use_type_invariant(self); }
        self.detectors.as_slice()
    }

    /// The registered detectors in canonical identifier order.
    pub fn iter(&self) -> (s: &[D])
        ensures
            s@ == self.spec_detectors(),
    {
        self.detectors()
    }
}

} // verus!

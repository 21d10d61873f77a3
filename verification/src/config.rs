//! Bounded, typed configuration and parameter models for detectors.

use vstd::prelude::*;
use crate::domain::{detector_id_lt, DetectorId};
use crate::error::DetectorConfigError;
use crate::ratio::{EvidenceRatio, FlowDuration};
use crate::text::{compare_str, lemma_lex_lt_irreflexive, lemma_lex_lt_transitive, str_equal, text_bytes, text_lt, Order};

verus! {

broadcast use vstd::string::group_string_axioms;

/// Maximum allowed byte length for a detector parameter key (64 bytes).
pub const MAX_PARAMETER_KEY_LENGTH: usize = 64;

/// Default maximum parameters per detector.
pub const DEFAULT_MAX_PARAMETERS: usize = 32;

/// Hard maximum parameters per detector.
pub const HARD_MAX_PARAMETERS: usize = 256;

/// A byte allowed first in a key: lowercase ASCII letter or digit.
pub open spec fn is_key_first_byte(b: u8) -> bool {
    (0x61 <= b <= 0x7a) || (0x30 <= b <= 0x39)
}

/// A byte allowed after the first in a key: also `.`, `_` and `-`.
pub open spec fn is_key_byte(b: u8) -> bool {
    is_key_first_byte(b) || b == 0x2e || b == 0x5f || b == 0x2d
}

/// Grammar of a parameter key over its UTF-8 bytes.
pub open spec fn valid_parameter_key(bytes: Seq<u8>) -> bool {
    &&& 1 <= bytes.len() <= MAX_PARAMETER_KEY_LENGTH
    &&& is_key_first_byte(bytes[0])
    &&& forall|i: int| 1 <= i < bytes.len() ==> #[trigger] is_key_byte(bytes[i])
}

/// Byte `i` of a key is not allowed where it stands.
pub open spec fn key_byte_bad(bytes: Seq<u8>, i: int) -> bool {
    if i == 0 {
        !is_key_first_byte(bytes[i])
    } else {
        !is_key_byte(bytes[i])
    }
}

/// Byte `i` is the first byte of the key that is not allowed where it stands.
pub open spec fn first_bad_key_byte(bytes: Seq<u8>, i: int) -> bool {
    &&& 0 <= i < bytes.len()
    &&& key_byte_bad(bytes, i)
    &&& forall|j: int| 0 <= j < i ==> !#[trigger] key_byte_bad(bytes, j)
}

/// Validated, bounded key identifying a detector configuration parameter.
#[derive(Debug, Clone, PartialEq, Eq, PartialOrd, Ord, Hash)]
pub struct DetectorParameterKey {
    key: String,
}

impl View for DetectorParameterKey {
    type V = Seq<char>;

    closed spec fn view(&self) -> Seq<char> {
        self.key@
    }
}

impl DetectorParameterKey {
    /// Creates and validates a new detector parameter key: 1 to 64 bytes, the first a
    /// lowercase ASCII letter or digit, the rest also `.`, `_` or `-`.
    pub fn try_new(raw: &str) -> (r: Result<DetectorParameterKey, DetectorConfigError>)
        ensures
            r is Ok <==> valid_parameter_key(text_bytes(raw@)),
            r matches Ok(k) ==> k@ == raw@,
            r matches Err(DetectorConfigError::EmptyParameterKey) <==> text_bytes(raw@).len()
                == 0,
            r matches Err(DetectorConfigError::ParameterKeyTooLong { length, max }) ==> length
                == text_bytes(raw@).len() && max == MAX_PARAMETER_KEY_LENGTH && length
                > MAX_PARAMETER_KEY_LENGTH,
            text_bytes(raw@).len() > MAX_PARAMETER_KEY_LENGTH ==> (r matches Err(
                DetectorConfigError::ParameterKeyTooLong { length, max },
            ) && length == text_bytes(raw@).len() && max == MAX_PARAMETER_KEY_LENGTH),
            1 <= text_bytes(raw@).len() <= MAX_PARAMETER_KEY_LENGTH && !valid_parameter_key(text_bytes(raw@))
                ==> (r matches Err(DetectorConfigError::InvalidParameterKeyCharacter { character })
                && exists|i: int|
                #[trigger] first_bad_key_byte(text_bytes(raw@), i) && character as u32 == text_bytes(raw@)[i] as u32),
    {
        let bytes = raw.as_bytes();
        let n = bytes.len();
        if n == 0 {
            return Err(DetectorConfigError::EmptyParameterKey);
        }
        if n > MAX_PARAMETER_KEY_LENGTH {
            return Err(DetectorConfigError::ParameterKeyTooLong { length: n, max: MAX_PARAMETER_KEY_LENGTH });
        }
        let first = bytes[0];
        if !((0x61 <= first && first <= 0x7a) || (0x30 <= first && first <= 0x39)) {
            assert(first_bad_key_byte(bytes@, 0));
            return Err(DetectorConfigError::InvalidParameterKeyCharacter { character: first as char });
        }
        let mut i: usize = 1;
        while i < n
            invariant
                n == bytes@.len(),
                n <= MAX_PARAMETER_KEY_LENGTH,
                bytes@ == text_bytes(raw@),
                1 <= i <= n,
                is_key_first_byte(bytes@[0]),
                forall|j: int| 1 <= j < i ==> #[trigger] is_key_byte(bytes@[j]),
            decreases n - i,
        {
            let b = bytes[i];
            if !((0x61 <= b && b <= 0x7a) || (0x30 <= b && b <= 0x39) || b == 0x2e || b == 0x5f
                || b == 0x2d) {
                assert(!is_key_byte(bytes@[i as int]));
                assert forall|j: int| 0 <= j < i implies !#[trigger] key_byte_bad(bytes@, j) by {
                    if j > 0 {
                        assert(is_key_byte(bytes@[j]));
                    }
                }
                assert(first_bad_key_byte(bytes@, i as int));
                return Err(DetectorConfigError::InvalidParameterKeyCharacter { character: b as char });
            }
            i = i + 1;
        }
        Ok(DetectorParameterKey { key: String::from_str(raw) })
    }

    /// Returns the parameter key as a string slice.
    pub fn as_str(&self) -> (s: &str)
        ensures
            s@ == self@,
    {
        self.key.as_str()
    }

    /// A copy of this key.
    pub fn duplicate(&self) -> (r: DetectorParameterKey)
        ensures
            r@ == self@,
    {
        DetectorParameterKey { key: self.key.clone() }
    }

    /// The key text as an owned string.
    pub fn to_text(&self) -> (s: String)
        ensures
            s@ == self@,
    {
        self.key.clone()
    }
}

/// Strictly typed parameter value without floating-point numbers or arbitrary strings.
#[derive(Debug, Clone, Copy, PartialEq, Eq, Structural, Hash)]
pub enum DetectorParameterValue {
    /// Boolean flag.
    Boolean(bool),
    /// Unsigned 128-bit integer.
    Unsigned(u128),
    /// Signed 128-bit integer.
    Signed(i128),
    /// Exact rational ratio.
    Ratio(EvidenceRatio),
    /// Exact rational temporal duration.
    Duration(FlowDuration),
}

/// An individual key-value parameter pair for detector configuration.
#[derive(Debug, Clone, PartialEq, Eq, Hash)]
pub struct DetectorParameter {
    /// Parameter identifier key.
    pub key: DetectorParameterKey,
    /// Parameter value.
    pub value: DetectorParameterValue,
}

/// The abstract content of a parameter: key text and value.
pub type ParameterView = (Seq<char>, DetectorParameterValue);

impl DetectorParameter {
    /// Creates a new parameter pair.
    pub fn new(key: DetectorParameterKey, value: DetectorParameterValue) -> (p: DetectorParameter)
        ensures
            p.key@ == key@,
            p.value == value,
    {
        DetectorParameter { key, value }
    }

    /// Key text and value.
    pub open spec fn view_pair(&self) -> ParameterView {
        (self.key@, self.value)
    }
}

/// The abstract contents of a parameter list.
pub open spec fn parameter_views(s: Seq<DetectorParameter>) -> Seq<ParameterView> {
    s.map_values(|p: DetectorParameter| p.view_pair())
}

/// Keys strictly increase between neighbours.
pub open spec fn keys_strictly_increasing(s: Seq<ParameterView>) -> bool {
    forall|i: int| 0 <= i < s.len() - 1 ==> #[trigger] text_lt(s[i].0, s[i + 1].0)
}

/// The value of the first entry whose key is `key`.
pub open spec fn lookup_parameter(s: Seq<ParameterView>, key: Seq<char>) -> Option<
    DetectorParameterValue,
>
    decreases s.len(),
{
    if s.len() == 0 {
        None
    } else if s[0].0 == key {
        Some(s[0].1)
    } else {
        lookup_parameter(s.drop_first(), key)
    }
}


/// A found value belongs to an entry with that key.
pub proof fn lemma_lookup_member(s: Seq<ParameterView>, key: Seq<char>)
    ensures
        lookup_parameter(s, key) matches Some(v) ==> exists|i: int|
            0 <= i < s.len() && (#[trigger] s[i]).0 == key && s[i].1 == v,
    decreases s.len(),
{
    if s.len() > 0 && s[0].0 != key {
        lemma_lookup_member(s.drop_first(), key);
        if let Some(v) = lookup_parameter(s, key) {
            let i = choose|i: int| 0 <= i < s.drop_first().len() && (#[trigger] s.drop_first()[i]).0 == key && s.drop_first()[i].1 == v;
            assert(s[i + 1] == s.drop_first()[i]);
        }
    }
}

/// Neighbour-wise strictly increasing keys are pairwise strictly increasing.
pub proof fn lemma_keys_pairwise(s: Seq<ParameterView>, i: int, j: int)
    requires
        keys_strictly_increasing(s),
        0 <= i < j < s.len(),
    ensures
        text_lt(s[i].0, s[j].0),
    decreases j - i,
{
    if j == i + 1 {
        assert(text_lt(s[i].0, s[i + 1].0));
    } else {
        lemma_keys_pairwise(s, i, j - 1);
        let k = j - 1;
        assert(text_lt(s[k].0, s[k + 1].0));
        lemma_lex_lt_transitive(text_bytes(s[i].0), text_bytes(s[j - 1].0), text_bytes(s[j].0));
    }
}

/// Bounded, deterministic collection of detector configuration parameters.
///
/// Storage is strictly ordered by key with no duplicate keys, and holds at most
/// [`HARD_MAX_PARAMETERS`] entries.
#[derive(Debug, PartialEq, Eq)]
pub struct DetectorParameters {
    parameters: Vec<DetectorParameter>,
}

impl View for DetectorParameters {
    type V = Seq<ParameterView>;

    closed spec fn view(&self) -> Seq<ParameterView> {
        parameter_views(self.parameters@)
    }
}

impl DetectorParameters {
    /// Keys are strictly sorted and the count is bounded.
    #[verifier::type_invariant]
    closed spec fn inv(self) -> bool {
        &&& keys_strictly_increasing(parameter_views(self.parameters@))
        &&& self.parameters@.len() <= HARD_MAX_PARAMETERS
    }

    /// Creates an empty parameters collection.
    pub fn empty() -> (p: DetectorParameters)
        ensures
            p@ == Seq::<ParameterView>::empty(),
    {
        let p = DetectorParameters { parameters: Vec::new() };
        assert(p@ =~= Seq::<ParameterView>::empty());
        p
    }

    /// Returns a new parameters builder.
    pub fn builder() -> (b: DetectorParametersBuilder)
        ensures
            b@ == Seq::<ParameterView>::empty(),
    {
        DetectorParametersBuilder::new()
    }

    /// Creates parameters from a vector, validating the count and strict key order.
    /// The first neighbouring pair that is equal or decreasing is reported.
    pub fn try_new(parameters: Vec<DetectorParameter>) -> (r: Result<
        DetectorParameters,
        DetectorConfigError,
    >)
        ensures
            r is Ok <==> parameters@.len() <= HARD_MAX_PARAMETERS && keys_strictly_increasing(
                parameter_views(parameters@),
            ),
            r matches Ok(p) ==> p@ == parameter_views(parameters@),
            parameters@.len() > HARD_MAX_PARAMETERS ==> r == Err::<
                DetectorParameters,
                DetectorConfigError,
            >(
                DetectorConfigError::ParametersExceeded {
                    count: parameters@.len() as usize,
                    max: HARD_MAX_PARAMETERS,
                },
            ),
            r matches Err(DetectorConfigError::DuplicateParameterKey(k)) ==> exists|i: int|
                0 <= i < parameters@.len() - 1 && (#[trigger] parameters@[i]).key@ == parameters@[i
                    + 1].key@ && k@ == parameters@[i + 1].key@,
            r matches Err(DetectorConfigError::OutOfOrderParameterKey { previous, attempted })
                ==> exists|i: int|
                0 <= i < parameters@.len() - 1 && previous@ == (
                #[trigger] parameters@[i]).key@ && attempted@ == parameters@[i + 1].key@
                    && text_lt(attempted@, previous@),
    {
        let n = parameters.len();
        if n > HARD_MAX_PARAMETERS {
            return Err(DetectorConfigError::ParametersExceeded { count: n, max: HARD_MAX_PARAMETERS });
        }
        let ghost views = parameter_views(parameters@);
        let mut i: usize = 0;
        while i < n && i + 1 < n
            invariant
                n == parameters@.len(),
                n <= HARD_MAX_PARAMETERS,
                views == parameter_views(parameters@),
                forall|j: int| 0 <= j < i && j < n - 1 ==> #[trigger] text_lt(views[j].0, views[j + 1].0),
            decreases n - i,
        {
            let prev = parameters[i].key.as_str();
            let curr = parameters[i + 1].key.as_str();
            match compare_str(prev, curr) {
                Order::Equal => {
                    assert(!text_lt(views[i as int].0, views[i + 1].0)) by {
                        lemma_lex_lt_irreflexive(text_bytes(views[i as int].0));
                    }
                    return Err(DetectorConfigError::DuplicateParameterKey(parameters[i + 1].key.to_text()));
                },
                Order::Greater => {
                    assert(!text_lt(views[i as int].0, views[i + 1].0)) by {
                        crate::text::lemma_lex_lt_asymmetric(
                            text_bytes(views[i + 1].0),
                            text_bytes(views[i as int].0),
                        );
                    }
                    return Err(
                        DetectorConfigError::OutOfOrderParameterKey {
                            previous: parameters[i].key.to_text(),
                            attempted: parameters[i + 1].key.to_text(),
                        },
                    );
                },
                Order::Less => {},
            }
            i = i + 1;
        }
        Ok(DetectorParameters { parameters })
    }

    /// Looks up a parameter value by key.
    pub fn get(&self, key: &str) -> (r: Option<&DetectorParameterValue>)
        ensures
            r matches Some(v) ==> lookup_parameter(self@, key@) == Some(*v),
            r is None ==> lookup_parameter(self@, key@) is None,
    {
        let n = self.parameters.len();
        let mut i: usize = 0;
        assert(self@.skip(0) =~= self@);
        while i < n
            invariant
                n == self.parameters@.len(),
                n == self@.len(),
                i <= n,
                lookup_parameter(self@, key@) == lookup_parameter(self@.skip(i as int), key@),
            decreases n - i,
        {
            assert(self@.skip(i as int)[0] == self.parameters@[i as int].view_pair());
            assert(self@.skip(i as int).drop_first() =~= self@.skip(i + 1));
            if str_equal(self.parameters[i].key.as_str(), key) {
                return Some(&self.parameters[i].value);
            }
            i = i + 1;
        }
        None
    }

    /// Looks up a boolean parameter value by key.
    pub fn get_bool(&self, key: &str) -> (r: Option<bool>)
        ensures
            r == (match lookup_parameter(self@, key@) {
                Some(DetectorParameterValue::Boolean(b)) => Some(b),
                _ => None,
            }),
    {
        match self.get(key) {
            Some(DetectorParameterValue::Boolean(b)) => Some(*b),
            _ => None,
        }
    }

    /// Looks up an unsigned integer parameter value by key.
    pub fn get_unsigned(&self, key: &str) -> (r: Option<u128>)
        ensures
            r == (match lookup_parameter(self@, key@) {
                Some(DetectorParameterValue::Unsigned(u)) => Some(u),
                _ => None,
            }),
    {
        match self.get(key) {
            Some(DetectorParameterValue::Unsigned(u)) => Some(*u),
            _ => None,
        }
    }

    /// Looks up a signed integer parameter value by key.
    pub fn get_signed(&self, key: &str) -> (r: Option<i128>)
        ensures
            r == (match lookup_parameter(self@, key@) {
                Some(DetectorParameterValue::Signed(s)) => Some(s),
                _ => None,
            }),
    {
        match self.get(key) {
            Some(DetectorParameterValue::Signed(s)) => Some(*s),
            _ => None,
        }
    }

    /// Looks up an exact rational ratio parameter value by key.
    pub fn get_ratio(&self, key: &str) -> (r: Option<EvidenceRatio>)
        ensures
            r == (match lookup_parameter(self@, key@) {
                Some(DetectorParameterValue::Ratio(x)) => Some(x),
                _ => None,
            }),
    {
        match self.get(key) {
            Some(DetectorParameterValue::Ratio(x)) => Some(*x),
            _ => None,
        }
    }

    /// Looks up an exact temporal duration parameter value by key.
    pub fn get_duration(&self, key: &str) -> (r: Option<FlowDuration>)
        ensures
            r == (match lookup_parameter(self@, key@) {
                Some(DetectorParameterValue::Duration(d)) => Some(d),
                _ => None,
            }),
    {
        match self.get(key) {
            Some(DetectorParameterValue::Duration(d)) => Some(*d),
            _ => None,
        }
    }

    /// The unsigned value under `key`, or `default` when absent or of another type.
    pub(crate) fn unsigned_or(&self, key: &str, default: u128) -> (v: u128)
        ensures
            v == (match lookup_parameter(self@, key@) {
                Some(DetectorParameterValue::Unsigned(u)) => u,
                _ => default,
            }),
    {
        match self.get(key) {
            Some(DetectorParameterValue::Unsigned(u)) => *u,
            _ => default,
        }
    }

    /// The ratio under `key`, or `default` when absent or of another type.
    pub(crate) fn ratio_or(&self, key: &str, default: EvidenceRatio) -> (r: EvidenceRatio)
        ensures
            r@ == (match lookup_parameter(self@, key@) {
                Some(DetectorParameterValue::Ratio(x)) => x@,
                _ => default@,
            }),
    {
        match self.get(key) {
            Some(DetectorParameterValue::Ratio(x)) => *x,
            _ => default,
        }
    }

    /// The duration under `key`, or `default` when absent or of another type.
    pub(crate) fn duration_or(&self, key: &str, default: FlowDuration) -> (r: FlowDuration)
        ensures
            r@ == (match lookup_parameter(self@, key@) {
                Some(DetectorParameterValue::Duration(x)) => x@,
                _ => default@,
            }),
    {
        match self.get(key) {
            Some(DetectorParameterValue::Duration(x)) => *x,
            _ => default,
        }
    }

    /// Returns the number of parameters in the collection.
    pub fn len(&self) -> (n: usize)
        ensures
            n == self@.len(),
            n <= HARD_MAX_PARAMETERS,
    {
        proof { use_type_invariant(self); }
        self.parameters.len()
    }

    /// Returns `true` if the parameters collection is empty.
    pub fn is_empty(&self) -> (b: bool)
        ensures
            b == (self@.len() == 0),
    {
        self.parameters.len() == 0
    }

    /// Returns a slice of the parameter pairs, in key order.
    pub fn as_slice(&self) -> (s: &[DetectorParameter])
        ensures
            parameter_views(s@) == self@,
            keys_strictly_increasing(self@),
    {
        proof { use_type_invariant(self); }
        self.parameters.as_slice()
    }

    /// The parameter pairs, in key order, for iteration.
    pub fn iter(&self) -> (s: &[DetectorParameter])
        ensures
            parameter_views(s@) == self@,
    {
        self.as_slice()
    }

    /// A copy of this collection.
    pub fn duplicate(&self) -> (r: DetectorParameters)
        ensures
            r@ == self@,
    {
        proof { use_type_invariant(self); }
        let n = self.parameters.len();
        let mut out: Vec<DetectorParameter> = Vec::new();
        let mut i: usize = 0;
        while i < n
            invariant
                n == self.parameters@.len(),
                i <= n,
                parameter_views(out@) == parameter_views(self.parameters@).take(i as int),
            decreases n - i,
        {
            let p = DetectorParameter::new(self.parameters[i].key.duplicate(), self.parameters[i].value);
            let ghost before = out@;
            out.push(p);
            proof {
                let views = parameter_views(self.parameters@);
                assert(p.view_pair() == views[i as int]);
                assert(out@ == before.push(p));
                assert(parameter_views(out@) =~= parameter_views(before).push(p.view_pair()));
                assert(views.take(i + 1) =~= views.take(i as int).push(views[i as int]));
            }
            i = i + 1;
        }
        assert(parameter_views(self.parameters@).take(n as int) =~= parameter_views(self.parameters@));
        DetectorParameters { parameters: out }
    }
}

impl Clone for DetectorParameters {
    fn clone(&self) -> (r: Self)
        ensures
            r@ == self@,
    {
        self.duplicate()
    }
}

/// Builder for constructing validated, strictly sorted [`DetectorParameters`].
#[derive(Debug)]
pub struct DetectorParametersBuilder {
    parameters: Vec<DetectorParameter>,
}

impl View for DetectorParametersBuilder {
    type V = Seq<ParameterView>;

    closed spec fn view(&self) -> Seq<ParameterView> {
        parameter_views(self.parameters@)
    }
}

impl DetectorParametersBuilder {
    /// Keys are strictly sorted and the count is bounded.
    #[verifier::type_invariant]
    closed spec fn inv(self) -> bool {
        &&& keys_strictly_increasing(parameter_views(self.parameters@))
        &&& self.parameters@.len() <= HARD_MAX_PARAMETERS
    }

    /// Creates a new empty parameters builder.
    pub fn new() -> (b: DetectorParametersBuilder)
        ensures
            b@ == Seq::<ParameterView>::empty(),
    {
        let b = DetectorParametersBuilder { parameters: Vec::new() };
        assert(b@ =~= Seq::<ParameterView>::empty());
        b
    }

    /// Appends a parameter. Fails when the builder already holds the hard maximum, when
    /// the key equals the last key, or when it sorts before the last key.
    pub fn add(&mut self, key: DetectorParameterKey, value: DetectorParameterValue) -> (r: Result<
        (),
        DetectorConfigError,
    >)
        ensures
            r is Ok <==> old(self)@.len() < HARD_MAX_PARAMETERS && (old(self)@.len() == 0
                || text_lt(old(self)@.last().0, key@)),
            r is Ok ==> final(self)@ == old(self)@.push((key@, value)),
            r is Err ==> final(self)@ == old(self)@,
            old(self)@.len() >= HARD_MAX_PARAMETERS ==> r == Err::<(), DetectorConfigError>(
                DetectorConfigError::ParametersExceeded {
                    count: (old(self)@.len() + 1) as usize,
                    max: HARD_MAX_PARAMETERS,
                },
            ),
            r matches Err(DetectorConfigError::DuplicateParameterKey(k)) ==> k@ == key@ && old(
                self,
            )@.len() > 0 && old(self)@.last().0 == key@,
            r matches Err(DetectorConfigError::OutOfOrderParameterKey { previous, attempted })
                ==> old(self)@.len() > 0 && previous@ == old(self)@.last().0 && attempted@
                == key@ && text_lt(key@, old(self)@.last().0),
    {
        proof { use_type_invariant(&*self); }
        let n = self.parameters.len();
        if n >= HARD_MAX_PARAMETERS {
            return Err(DetectorConfigError::ParametersExceeded { count: n + 1, max: HARD_MAX_PARAMETERS });
        }
        if n > 0 {
            let ghost last = self@.last();
            assert(self.parameters@[n - 1].view_pair() == last);
            match compare_str(self.parameters[n - 1].key.as_str(), key.as_str()) {
                Order::Equal => {
                    proof { lemma_lex_lt_irreflexive(text_bytes(key@)); }
                    return Err(DetectorConfigError::DuplicateParameterKey(key.to_text()));
                },
                Order::Greater => {
                    proof {
                        crate::text::lemma_lex_lt_asymmetric(text_bytes(key@), text_bytes(last.0));
                    }
                    return Err(
                        DetectorConfigError::OutOfOrderParameterKey {
                            previous: self.parameters[n - 1].key.to_text(),
                            attempted: key.to_text(),
                        },
                    );
                },
                Order::Less => {},
            }
        }
        let ghost before = self@;
        let mut params: Vec<DetectorParameter> = Vec::new();
        std::mem::swap(&mut params, &mut self.parameters);
        params.push(DetectorParameter::new(key, value));
        assert(parameter_views(params@) =~= before.push((key@, value)));
        self.parameters = params;
        Ok(())
    }

    /// Builds the validated [`DetectorParameters`] collection.
    pub fn build(self) -> (r: Result<DetectorParameters, DetectorConfigError>)
        ensures
            r matches Ok(p) && p@ == self@,
    {
        proof { use_type_invariant(&self); }
        Ok(DetectorParameters { parameters: self.parameters })
    }
}

/// Execution configuration for a single registered detector.
#[derive(Debug, PartialEq, Eq)]
pub struct DetectorConfig {
    /// Whether the detector is enabled for evaluation.
    pub enabled: bool,
    /// Parameter settings for the detector.
    pub parameters: DetectorParameters,
}

/// The abstract content of a detector configuration: enablement and parameters.
pub type ConfigView = (bool, Seq<ParameterView>);

impl DetectorConfig {
    /// Enablement and parameters.
    pub open spec fn view_pair(&self) -> ConfigView {
        (self.enabled, self.parameters@)
    }

    /// Creates an enabled detector configuration with empty parameters.
    pub fn enabled() -> (c: DetectorConfig)
        ensures
            c.view_pair() == (true, Seq::<ParameterView>::empty()),
    {
        DetectorConfig { enabled: true, parameters: DetectorParameters::empty() }
    }

    /// Creates a disabled detector configuration.
    pub fn disabled() -> (c: DetectorConfig)
        ensures
            c.view_pair() == (false, Seq::<ParameterView>::empty()),
    {
        DetectorConfig { enabled: false, parameters: DetectorParameters::empty() }
    }

    /// Creates a detector configuration with explicit enablement and parameters.
    pub fn new(enabled: bool, parameters: DetectorParameters) -> (c: DetectorConfig)
        ensures
            c.view_pair() == (enabled, parameters@),
    {
        DetectorConfig { enabled, parameters }
    }
}

impl Default for DetectorConfig {
    fn default() -> (c: Self)
        ensures
            c.view_pair() == (true, Seq::<ParameterView>::empty()),
    {
        Self::enabled()
    }
}

/// The abstract content of a configuration entry: detector identifier and configuration.
pub type ConfigEntryView = (Seq<char>, ConfigView);

/// The abstract contents of a configuration list.
pub open spec fn config_entry_views(s: Seq<(DetectorId, DetectorConfig)>) -> Seq<ConfigEntryView> {
    s.map_values(|e: (DetectorId, DetectorConfig)| (e.0@, e.1.view_pair()))
}

/// Detector identifiers strictly increase between neighbours.
pub open spec fn ids_strictly_increasing(s: Seq<ConfigEntryView>) -> bool {
    forall|i: int| 0 <= i < s.len() - 1 ==> #[trigger] detector_id_lt(s[i].0, s[i + 1].0)
}

/// The configuration of the first entry for detector `id`.
pub open spec fn lookup_config(s: Seq<ConfigEntryView>, id: Seq<char>) -> Option<ConfigView>
    decreases s.len(),
{
    if s.len() == 0 {
        None
    } else if s[0].0 == id {
        Some(s[0].1)
    } else {
        lookup_config(s.drop_first(), id)
    }
}

proof fn lemma_lookup_config_append(a: Seq<ConfigEntryView>, b: Seq<ConfigEntryView>, id: Seq<char>)
    requires
        forall|i: int| 0 <= i < a.len() ==> a[i].0 != id,
    ensures
        lookup_config(a + b, id) == lookup_config(b, id),
    decreases a.len(),
{
    if a.len() > 0 {
        assert((a + b).drop_first() =~= a.drop_first() + b);
        lemma_lookup_config_append(a.drop_first(), b, id);
    } else {
        assert(a + b =~= b);
    }
}

proof fn lemma_lookup_config_prefix(a: Seq<ConfigEntryView>, b: Seq<ConfigEntryView>, id: Seq<char>)
    requires
        exists|i: int| 0 <= i < a.len() && a[i].0 == id,
    ensures
        lookup_config(a + b, id) == lookup_config(a, id),
    decreases a.len(),
{
    if a[0].0 != id {
        assert((a + b).drop_first() =~= a.drop_first() + b);
        let i = choose|i: int| 0 <= i < a.len() && a[i].0 == id;
        assert(a.drop_first()[i - 1].0 == id);
        lemma_lookup_config_prefix(a.drop_first(), b, id);
    }
}

/// Map of detector configurations keyed by detector identifier, kept sorted by identifier.
#[derive(Debug, PartialEq, Eq)]
pub struct DetectorConfigurations {
    configs: Vec<(DetectorId, DetectorConfig)>,
}

impl View for DetectorConfigurations {
    type V = Seq<ConfigEntryView>;

    closed spec fn view(&self) -> Seq<ConfigEntryView> {
        config_entry_views(self.configs@)
    }
}

impl DetectorConfigurations {
    /// Entries are strictly sorted by identifier.
    #[verifier::type_invariant]
    closed spec fn inv(self) -> bool {
        ids_strictly_increasing(config_entry_views(self.configs@))
    }

    /// Creates an empty configurations set.
    pub fn new() -> (c: DetectorConfigurations)
        ensures
            c@ == Seq::<ConfigEntryView>::empty(),
    {
        let c = DetectorConfigurations { configs: Vec::new() };
        assert(c@ =~= Seq::<ConfigEntryView>::empty());
        c
    }

    /// Inserts or replaces the configuration for a detector, keeping identifier order.
    pub fn insert(&mut self, detector_id: DetectorId, config: DetectorConfig)
        ensures
            lookup_config(final(self)@, detector_id@) == Some(config.view_pair()),
            forall|other: Seq<char>|
                other != detector_id@ ==> lookup_config(final(self)@, other) == lookup_config(
                    old(self)@,
                    other,
                ),
    {
        proof { use_type_invariant(&*self); }
        let ghost old_view = self@;
        let ghost id = detector_id@;
        let ghost cv = config.view_pair();
        let n = self.configs.len();
        let mut i: usize = 0;
        let mut found = false;
        while i < n
            invariant_except_break
                n == self.configs@.len(),
                id == detector_id@,
                self@ == old_view,
                i <= n,
                !found,
                forall|j: int| 0 <= j < i ==> #[trigger] detector_id_lt(old_view[j].0, id),
            ensures
                n == self.configs@.len(),
                self@ == old_view,
                i <= n,
                forall|j: int| 0 <= j < i ==> #[trigger] detector_id_lt(old_view[j].0, id),
                found ==> i < n && old_view[i as int].0 == id,
                !found && i < n ==> detector_id_lt(id, old_view[i as int].0),
            decreases n - i,
        {
            assert(old_view[i as int].0 == self.configs@[i as int].0@);
            let o = self.configs[i].0.compare(&detector_id);
            match o {
                Order::Equal => {
                    assert(self.configs@[i as int].0@ == id);
                    assert(old_view[i as int].0 == id);
                    found = true;
                    break;
                },
                Order::Greater => {
                    break;
                },
                Order::Less => {},
            }
            i = i + 1;
        }
        let ghost prefix = old_view.take(i as int);
        let ghost entry = (id, cv);
        assert forall|j: int| 0 <= j < prefix.len() implies prefix[j].0 != id by {
            assert(detector_id_lt(old_view[j].0, id));
            lemma_lex_lt_irreflexive(text_bytes(id));
        }
        let mut configs: Vec<(DetectorId, DetectorConfig)> = Vec::new();
        std::mem::swap(&mut configs, &mut self.configs);
        let ghost pre = configs@;
        assert(config_entry_views(pre) == old_view);
        if found {
            let ghost suffix = old_view.skip(i + 1);
            configs.set(i, (detector_id, config));
            proof {
                lemma_views_update(pre, i as int, configs@[i as int]);
                let newv = config_entry_views(configs@);
                assert(newv =~= prefix + seq![entry] + suffix);
                assert(old_view =~= prefix + seq![old_view[i as int]] + suffix);
                assert(newv =~= prefix + (seq![entry] + suffix));
                lemma_lookup_config_append(prefix, seq![entry] + suffix, id);
                assert((seq![entry] + suffix)[0].0 == id);
                assert forall|other: Seq<char>| other != id implies lookup_config(newv, other)
                    == lookup_config(old_view, other) by {
                    lemma_lookup_both(prefix, entry, old_view[i as int], suffix, other);
                }
                assert forall|j: int| 0 <= j < newv.len() - 1 implies #[trigger] detector_id_lt(
                    newv[j].0,
                    newv[j + 1].0,
                ) by {
                    assert(newv[j].0 == old_view[j].0);
                    assert(newv[j + 1].0 == old_view[j + 1].0);
                }
            }
            self.configs = configs;
        } else {
            let ghost suffix = old_view.skip(i as int);
            configs.insert(i, (detector_id, config));
            proof {
                lemma_views_insert(pre, i as int, configs@[i as int]);
                let newv = config_entry_views(configs@);
                assert(newv =~= prefix + seq![entry] + suffix);
                assert(old_view =~= prefix + suffix);
                lemma_lookup_config_append(prefix, seq![entry] + suffix, id);
                assert((seq![entry] + suffix)[0].0 == id);
                assert forall|other: Seq<char>| other != id implies lookup_config(newv, other)
                    == lookup_config(old_view, other) by {
                    lemma_lookup_insert(prefix, entry, suffix, other);
                }
                assert forall|j: int| 0 <= j < newv.len() - 1 implies #[trigger] detector_id_lt(
                    newv[j].0,
                    newv[j + 1].0,
                ) by {
                    if j + 1 < i {
                        assert(newv[j].0 == old_view[j].0);
                        assert(newv[j + 1].0 == old_view[j + 1].0);
                        assert(detector_id_lt(old_view[j].0, old_view[j + 1].0));
                    } else if j + 1 == i {
                        assert(newv[j].0 == old_view[j].0);
                        assert(newv[j + 1].0 == id);
                        assert(detector_id_lt(old_view[j].0, id));
                    } else if j == i {
                        assert(newv[j].0 == id);
                        assert(newv[j + 1].0 == old_view[i as int].0);
                    } else {
                        let k = j - 1;
                        assert(newv[j].0 == old_view[k].0);
                        assert(newv[j + 1].0 == old_view[k + 1].0);
                        assert(detector_id_lt(old_view[k].0, old_view[k + 1].0));
                    }
                }
                assert(newv =~= prefix + (seq![entry] + suffix));
            }
            self.configs = configs;
        }
    }

    /// Gets configuration for a detector, or `None`.
    pub fn get(&self, detector_id: &DetectorId) -> (r: Option<&DetectorConfig>)
        ensures
            r matches Some(c) ==> lookup_config(self@, detector_id@) == Some(c.view_pair()),
            r is None ==> lookup_config(self@, detector_id@) is None,
    {
        let n = self.configs.len();
        let mut i: usize = 0;
        assert(self@.skip(0) =~= self@);
        while i < n
            invariant
                n == self.configs@.len(),
                n == self@.len(),
                i <= n,
                lookup_config(self@, detector_id@) == lookup_config(self@.skip(i as int), detector_id@),
            decreases n - i,
        {
            assert(self@.skip(i as int).drop_first() =~= self@.skip(i + 1));
            if self.configs[i].0.equals(detector_id) {
                return Some(&self.configs[i].1);
            }
            i = i + 1;
        }
        None
    }

    /// Number of configured detectors.
    pub fn len(&self) -> (n: usize)
        ensures
            n == self@.len(),
    {
        self.configs.len()
    }

    /// The configured entries, in identifier order.
    pub fn as_slice(&self) -> (s: &[(DetectorId, DetectorConfig)])
        ensures
            config_entry_views(s@) == self@,
            ids_strictly_increasing(self@),
    {
        proof { use_type_invariant(self); }
        self.configs.as_slice()
    }

    /// The configured entries, in identifier order.
    pub fn iter(&self) -> (s: &[(DetectorId, DetectorConfig)])
        ensures
            config_entry_views(s@) == self@,
    {
        self.as_slice()
    }
}

impl Default for DetectorConfigurations {
    fn default() -> (c: Self)
        ensures
            c@ == Seq::<ConfigEntryView>::empty(),
    {
        Self::new()
    }
}

proof fn lemma_views_update(s: Seq<(DetectorId, DetectorConfig)>, i: int, x: (DetectorId, DetectorConfig))
    requires
        0 <= i < s.len(),
    ensures
        config_entry_views(s.update(i, x)) =~= config_entry_views(s).update(i, (x.0@, x.1.view_pair())),
{
}

proof fn lemma_views_insert(s: Seq<(DetectorId, DetectorConfig)>, i: int, x: (DetectorId, DetectorConfig))
    requires
        0 <= i <= s.len(),
    ensures
        config_entry_views(s.insert(i, x)) =~= config_entry_views(s).insert(i, (x.0@, x.1.view_pair())),
{
}

proof fn lemma_lookup_both(
    prefix: Seq<ConfigEntryView>,
    x: ConfigEntryView,
    y: ConfigEntryView,
    suffix: Seq<ConfigEntryView>,
    other: Seq<char>,
)
    requires
        x.0 == y.0,
        other != x.0,
    ensures
        lookup_config(prefix + seq![x] + suffix, other) == lookup_config(
            prefix + seq![y] + suffix,
            other,
        ),
    decreases prefix.len(),
{
    if prefix.len() == 0 {
        assert(prefix + seq![x] + suffix =~= seq![x] + suffix);
        assert(prefix + seq![y] + suffix =~= seq![y] + suffix);
        assert((seq![x] + suffix).drop_first() =~= suffix);
        assert((seq![y] + suffix).drop_first() =~= suffix);
    } else {
        assert((prefix + seq![x] + suffix).drop_first() =~= prefix.drop_first() + seq![x] + suffix);
        assert((prefix + seq![y] + suffix).drop_first() =~= prefix.drop_first() + seq![y] + suffix);
        lemma_lookup_both(prefix.drop_first(), x, y, suffix, other);
    }
}

proof fn lemma_lookup_insert(
    prefix: Seq<ConfigEntryView>,
    x: ConfigEntryView,
    suffix: Seq<ConfigEntryView>,
    other: Seq<char>,
)
    requires
        other != x.0,
    ensures
        lookup_config(prefix + seq![x] + suffix, other) == lookup_config(prefix + suffix, other),
    decreases prefix.len(),
{
    if prefix.len() == 0 {
        assert(prefix + seq![x] + suffix =~= seq![x] + suffix);
        assert(prefix + suffix =~= suffix);
        assert((seq![x] + suffix).drop_first() =~= suffix);
    } else {
        assert((prefix + seq![x] + suffix).drop_first() =~= prefix.drop_first() + seq![x] + suffix);
        assert((prefix + suffix).drop_first() =~= prefix.drop_first() + suffix);
        lemma_lookup_insert(prefix.drop_first(), x, suffix, other);
    }
}

} // verus!

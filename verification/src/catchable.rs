//! Catchable error kinds: a set of flags where each bit names one kind of
//! recoverable evaluation error and several named groups cover related kinds.
use vstd::prelude::*;

verus! {

/// A set of catchable error kinds, stored as bits.
#[allow(non_camel_case_types)]
#[derive(PartialEq, Eq, Structural, Clone, Copy, Debug, Hash)]
pub struct cerr(pub u32);

/// All bits that name a known error kind.
pub const CERR_ALL_BITS: u32 = 0b11111111111111111111111;

#[allow(non_snake_case)]
impl cerr {
    #[verifier::allow_in_spec]
    pub fn network_statusDisallowed() -> cerr
        returns
            cerr(0b1),
    {
        cerr(0b1)
    }
    #[verifier::allow_in_spec]
    pub fn network_respInvalid_notJson() -> cerr
        returns
            cerr(0b10),
    {
        cerr(0b10)
    }
    #[verifier::allow_in_spec]
    pub fn network_policy_serverNotAllowed() -> cerr
        returns
            cerr(0b100),
    {
        cerr(0b100)
    }
    #[verifier::allow_in_spec]
    pub fn network_external() -> cerr
        returns
            cerr(0b1000),
    {
        cerr(0b1000)
    }
    #[verifier::allow_in_spec]
    pub fn network_url_syntax() -> cerr
        returns
            cerr(0b10000),
    {
        cerr(0b10000)
    }
    #[verifier::allow_in_spec]
    pub fn network() -> cerr
        returns
            cerr(0b11111),
    {
        cerr(0b11111)
    }
    #[verifier::allow_in_spec]
    pub fn missing_variable() -> cerr
        returns
            cerr(0b100000),
    {
        cerr(0b100000)
    }
    #[verifier::allow_in_spec]
    pub fn missing_list() -> cerr
        returns
            cerr(0b1000000),
    {
        cerr(0b1000000)
    }
    #[verifier::allow_in_spec]
    pub fn missing() -> cerr
        returns
            cerr(0b1100000),
    {
        cerr(0b1100000)
    }
    #[verifier::allow_in_spec]
    pub fn regex_syntax() -> cerr
        returns
            cerr(0b10000000),
    {
        cerr(0b10000000)
    }
    #[verifier::allow_in_spec]
    pub fn regex_noMatch() -> cerr
        returns
            cerr(0b100000000),
    {
        cerr(0b100000000)
    }
    #[verifier::allow_in_spec]
    pub fn regex_invalidHaystack() -> cerr
        returns
            cerr(0b1000000000),
    {
        cerr(0b1000000000)
    }
    #[verifier::allow_in_spec]
    pub fn regex_noGroup() -> cerr
        returns
            cerr(0b10000000000),
    {
        cerr(0b10000000000)
    }
    #[verifier::allow_in_spec]
    pub fn regex() -> cerr
        returns
            cerr(0b11110000000),
    {
        cerr(0b11110000000)
    }
    #[verifier::allow_in_spec]
    pub fn collection_keyInvalidForArray() -> cerr
        returns
            cerr(0b100000000000),
    {
        cerr(0b100000000000)
    }
    #[verifier::allow_in_spec]
    pub fn collection_valueNotFound() -> cerr
        returns
            cerr(0b1000000000000),
    {
        cerr(0b1000000000000)
    }
    #[verifier::allow_in_spec]
    pub fn collection() -> cerr
        returns
            cerr(0b1100000000000),
    {
        cerr(0b1100000000000)
    }
    #[verifier::allow_in_spec]
    pub fn typing_notCollection_notArray() -> cerr
        returns
            cerr(0b10000000000000),
    {
        cerr(0b10000000000000)
    }
    #[verifier::allow_in_spec]
    pub fn typing_notCollection_notMapping() -> cerr
        returns
            cerr(0b100000000000000),
    {
        cerr(0b100000000000000)
    }
    #[verifier::allow_in_spec]
    pub fn typing_notCollection() -> cerr
        returns
            cerr(0b110000000000000),
    {
        cerr(0b110000000000000)
    }
    #[verifier::allow_in_spec]
    pub fn typing_notAction() -> cerr
        returns
            cerr(0b1000000000000000),
    {
        cerr(0b1000000000000000)
    }
    #[verifier::allow_in_spec]
    pub fn typing_notCriterion() -> cerr
        returns
            cerr(0b10000000000000000),
    {
        cerr(0b10000000000000000)
    }
    #[verifier::allow_in_spec]
    pub fn typing_notValue() -> cerr
        returns
            cerr(0b100000000000000000),
    {
        cerr(0b100000000000000000)
    }
    #[verifier::allow_in_spec]
    pub fn typing_notPrimitive() -> cerr
        returns
            cerr(0b1000000000000000000),
    {
        cerr(0b1000000000000000000)
    }
    #[verifier::allow_in_spec]
    pub fn typing_notText() -> cerr
        returns
            cerr(0b10000000000000000000),
    {
        cerr(0b10000000000000000000)
    }
    #[verifier::allow_in_spec]
    pub fn typing_notNumeric() -> cerr
        returns
            cerr(0b100000000000000000000),
    {
        cerr(0b100000000000000000000)
    }
    #[verifier::allow_in_spec]
    pub fn typing_notMapkey() -> cerr
        returns
            cerr(0b1000000000000000000000),
    {
        cerr(0b1000000000000000000000)
    }
    #[verifier::allow_in_spec]
    pub fn typing_notIterable() -> cerr
        returns
            cerr(0b10000000000000000000000),
    {
        cerr(0b10000000000000000000000)
    }
    #[verifier::allow_in_spec]
    pub fn typing() -> cerr
        returns
            cerr(0b11111111110000000000000),
    {
        cerr(0b11111111110000000000000)
    }
    #[verifier::allow_in_spec]
    pub fn any() -> cerr
        returns
            cerr(0b11111111111111111111111),
    {
        cerr(0b11111111111111111111111)
    }
    /// Kinds without a bit of their own; they stand for every kind.
    #[verifier::allow_in_spec]
    pub fn typing_notArray() -> cerr
        returns
            cerr(0b11111111111111111111111),
    {
        cerr(0b11111111111111111111111)
    }
    #[verifier::allow_in_spec]
    pub fn typing_notMapping() -> cerr
        returns
            cerr(0b11111111111111111111111),
    {
        cerr(0b11111111111111111111111)
    }
    #[verifier::allow_in_spec]
    pub fn exotic_unknownPerspective() -> cerr
        returns
            cerr(0b11111111111111111111111),
    {
        cerr(0b11111111111111111111111)
    }
    #[verifier::allow_in_spec]
    pub fn mapping_missingKey() -> cerr
        returns
            cerr(0b11111111111111111111111),
    {
        cerr(0b11111111111111111111111)
    }
    #[verifier::allow_in_spec]
    pub fn typing_notNetworkResp() -> cerr
        returns
            cerr(0b11111111111111111111111),
    {
        cerr(0b11111111111111111111111)
    }

    /// Whether every kind in `other` is also in `self`.
    pub open spec fn spec_contains(self, other: cerr) -> bool {
        self.0 & other.0 == other.0
    }

    /// Whether every kind in `other` is also in `self`.
    pub fn contains(self, other: cerr) -> (r: bool)
        ensures
            r == self.spec_contains(other),
    {
        self.0 & other.0 == other.0
    }

    /// The kinds in `self` or in `other`.
    pub fn union(self, other: cerr) -> (r: cerr)
        ensures
            r.0 == self.0 | other.0,
    {
        cerr(self.0 | other.0)
    }

    /// The raw bits of this set.
    pub fn bits(self) -> (r: u32)
        ensures
            r == self.0,
    {
        self.0
    }

    /// The set of the known kinds among `bits`; unknown bits are dropped.
    pub fn from_bits_truncate(bits: u32) -> (r: cerr)
        ensures
            r.0 == bits & CERR_ALL_BITS,
    {
        cerr(bits & CERR_ALL_BITS)
    }

    /// The empty set of kinds.
    pub fn empty() -> (r: cerr)
        ensures
            r.0 == 0,
    {
        cerr(0)
    }

    /// Whether no kind is set.
    pub fn is_empty(self) -> (r: bool)
        ensures
            r == (self.0 == 0),
    {
        self.0 == 0
    }
}

/// A set contains every subset of it: in particular every set contains itself
/// and the empty set.
pub proof fn lemma_contains_reflexive(e: cerr)
    ensures
        e.spec_contains(e),
        e.spec_contains(cerr(0)),
{
    assert(e.0 & e.0 == e.0) by (bit_vector);
    assert(e.0 & 0 == 0) by (bit_vector);
}

/// `contains` is transitive.
pub proof fn lemma_contains_transitive(a: cerr, b: cerr, c: cerr)
    requires
        a.spec_contains(b),
        b.spec_contains(c),
    ensures
        a.spec_contains(c),
{
    let (x, y, z) = (a.0, b.0, c.0);
    assert(x & y == y && y & z == z ==> x & z == z) by (bit_vector);
}

/// `any` catches every known kind: it contains every set of known bits.
pub proof fn lemma_any_contains_all(e: cerr)
    requires
        e.0 & CERR_ALL_BITS == e.0,
    ensures
        cerr::any().spec_contains(e),
{
    let x = e.0;
    assert(x & 0b11111111111111111111111u32 == x ==> 0b11111111111111111111111u32 & x == x)
        by (bit_vector);
}

/// Each named group is the union of its members.
pub proof fn lemma_groups_are_unions()
    ensures
        cerr::network().0 == cerr::network_statusDisallowed().0 | cerr::network_respInvalid_notJson().0
            | cerr::network_policy_serverNotAllowed().0 | cerr::network_external().0
            | cerr::network_url_syntax().0,
        cerr::missing().0 == cerr::missing_variable().0 | cerr::missing_list().0,
        cerr::regex().0 == cerr::regex_syntax().0 | cerr::regex_noMatch().0
            | cerr::regex_invalidHaystack().0 | cerr::regex_noGroup().0,
        cerr::collection().0 == cerr::collection_keyInvalidForArray().0
            | cerr::collection_valueNotFound().0,
        cerr::typing_notCollection().0 == cerr::typing_notCollection_notArray().0
            | cerr::typing_notCollection_notMapping().0,
        cerr::typing().0 == cerr::typing_notCollection().0 | cerr::typing_notAction().0
            | cerr::typing_notCriterion().0 | cerr::typing_notValue().0 | cerr::typing_notPrimitive().0
            | cerr::typing_notText().0 | cerr::typing_notNumeric().0 | cerr::typing_notMapkey().0
            | cerr::typing_notIterable().0,
        cerr::any().0 == cerr::network().0 | cerr::missing().0 | cerr::regex().0 | cerr::collection().0
            | cerr::typing().0,
{
    assert(0b11111u32 == 0b1u32 | 0b10u32 | 0b100u32 | 0b1000u32 | 0b10000u32) by (bit_vector);
    assert(0b1100000u32 == 0b100000u32 | 0b1000000u32) by (bit_vector);
    assert(0b11110000000u32 == 0b10000000u32 | 0b100000000u32 | 0b1000000000u32
        | 0b10000000000u32) by (bit_vector);
    assert(0b1100000000000u32 == 0b100000000000u32 | 0b1000000000000u32) by (bit_vector);
    assert(0b110000000000000u32 == 0b10000000000000u32 | 0b100000000000000u32) by (bit_vector);
    assert(0b11111111110000000000000u32 == 0b110000000000000u32 | 0b1000000000000000u32
        | 0b10000000000000000u32 | 0b100000000000000000u32 | 0b1000000000000000000u32
        | 0b10000000000000000000u32 | 0b100000000000000000000u32 | 0b1000000000000000000000u32
        | 0b10000000000000000000000u32) by (bit_vector);
    assert(0b11111111111111111111111u32 == 0b11111u32 | 0b1100000u32 | 0b11110000000u32
        | 0b1100000000000u32 | 0b11111111110000000000000u32) by (bit_vector);
}

} // verus!

//! Capabilities that an evaluation may use, as a set of flags.
use vstd::prelude::*;

verus! {

/// A set of capabilities, stored as bits.
#[derive(PartialEq, Eq, Structural, Clone, Copy, Debug, Hash, Default)]
pub struct Features(pub u32);

#[allow(non_snake_case)]
impl Features {
    /// Allow access to INPUT, OUTPUT, RANDOMS, LISTS, ...
    #[verifier::allow_in_spec]
    pub fn READ_RUNDATA() -> Features
        returns
            Features(0b1),
    {
        Features(0b1)
    }

    /// End a current test (available in test hooks and tests)
    #[verifier::allow_in_spec]
    pub fn END_THIS_TEST() -> Features
        returns
            Features(0b10),
    {
        Features(0b10)
    }

    /// Send global message (available if message sending is allowed)
    #[verifier::allow_in_spec]
    pub fn SENDMSG_SPEC() -> Features
        returns
            Features(0b100),
    {
        Features(0b100)
    }

    /// Send message to category (available in category and its tests)
    #[verifier::allow_in_spec]
    pub fn SENDMSG_CATEGORY() -> Features
        returns
            Features(0b1000),
    {
        Features(0b1000)
    }

    /// Send message to the maintest level (only in main- and alternative test)
    #[verifier::allow_in_spec]
    pub fn SENDMSG_MAINTEST() -> Features
        returns
            Features(0b10000),
    {
        Features(0b10000)
    }

    /// Send message to the current entity level
    #[verifier::allow_in_spec]
    pub fn SENDMSG_CURRENT() -> Features
        returns
            Features(0b100000),
    {
        Features(0b100000)
    }

    /// What a hook that runs before a test may use: ending the test and
    /// sending messages to every level.
    #[verifier::allow_in_spec]
    pub fn PermittedFEAT_PreTestHook() -> Features
        returns
            Features(0b111110),
    {
        Features(0b111110)
    }

    /// What may be used inside a test: everything of a pre-test hook and
    /// reading the data of the run.
    #[verifier::allow_in_spec]
    pub fn PermittedFEAT_TestScope() -> Features
        returns
            Features(0b111111),
    {
        Features(0b111111)
    }

    /// What the pass criterion of a test may use.
    #[verifier::allow_in_spec]
    pub fn PermittedFEAT_PassTestCrit() -> Features
        returns
            Features(0b111111),
    {
        Features(0b111111)
    }

    /// What a hook that runs after a test may use.
    #[verifier::allow_in_spec]
    pub fn PermittedFEAT_PostTestHook() -> Features
        returns
            Features(0b111111),
    {
        Features(0b111111)
    }

    /// The empty set.
    #[verifier::allow_in_spec]
    pub fn empty() -> Features
        returns
            Features(0),
    {
        Features(0)
    }

    /// Whether every capability of `other` is also in `self`.
    pub open spec fn spec_contains(self, other: Features) -> bool {
        self.0 & other.0 == other.0
    }

    /// Whether every capability of `other` is also in `self`.
    pub fn contains(self, other: Features) -> (r: bool)
        ensures
            r == self.spec_contains(other),
    {
        self.0 & other.0 == other.0
    }

    /// The capabilities of `self` and of `other`.
    pub fn union(self, other: Features) -> (r: Features)
        ensures
            r.0 == self.0 | other.0,
    {
        Features(self.0 | other.0)
    }

    /// The raw bits.
    pub fn bits(self) -> (r: u32)
        ensures
            r == self.0,
    {
        self.0
    }
}

/// Something that needs capabilities to be evaluated.
pub trait RequiredFeatures {
    fn required_features(&self) -> Features;
}

/// The permitted sets grow from a pre-test hook to the test scope: the test
/// scope is the pre-test set together with reading run data, and the pass
/// criterion and the post-test hooks may use exactly the test scope.
pub proof fn lemma_permitted_sets()
    ensures
        Features::PermittedFEAT_PreTestHook().0 == (Features::END_THIS_TEST().0
            | Features::SENDMSG_SPEC().0 | Features::SENDMSG_CATEGORY().0
            | Features::SENDMSG_MAINTEST().0 | Features::SENDMSG_CURRENT().0),
        Features::PermittedFEAT_TestScope().0 == (Features::PermittedFEAT_PreTestHook().0
            | Features::READ_RUNDATA().0),
        Features::PermittedFEAT_TestScope().spec_contains(Features::PermittedFEAT_PreTestHook()),
        !Features::PermittedFEAT_PreTestHook().spec_contains(Features::READ_RUNDATA()),
        Features::PermittedFEAT_PassTestCrit() == Features::PermittedFEAT_TestScope(),
        Features::PermittedFEAT_PostTestHook() == Features::PermittedFEAT_TestScope(),
{
    assert(0b111110u32 == (0b10u32 | 0b100u32 | 0b1000u32 | 0b10000u32 | 0b100000u32))
        by (bit_vector);
    assert(0b111111u32 == (0b111110u32 | 0b1u32)) by (bit_vector);
    assert(0b111111u32 & 0b111110u32 == 0b111110u32) by (bit_vector);
    assert(0b111110u32 & 0b1u32 != 0b1u32) by (bit_vector);
}

/// A set contains all subsets of it; `contains` of a union holds for both
/// parts.
pub proof fn lemma_union_contains(a: Features, b: Features)
    ensures
        Features(a.0 | b.0).spec_contains(a),
        Features(a.0 | b.0).spec_contains(b),
        a.spec_contains(Features(0)),
{
    let (x, y) = (a.0, b.0);
    assert((x | y) & x == x) by (bit_vector);
    assert((x | y) & y == y) by (bit_vector);
    assert(x & 0 == 0) by (bit_vector);
}

} // verus!

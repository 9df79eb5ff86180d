//! The structure of a specification: categories of main tests, their
//! alternative tests, and the hooks around them.
use vstd::prelude::*;

use std::collections::BTreeMap;

use crate::messages::MsgType;
use crate::spec::entities::{ActionEntity, CriterionEntity, Entity, EntityId, MessageSendingLevel};
use crate::spec::values::{Numeric, PrimitiveValue};

verus! {

/// Whether a test may generate random numbers beyond its predefined ones.
#[derive(Debug, PartialEq, Eq, Structural, Clone, Copy)]
pub enum RandomGeneration {
    /// No random numbers are generated (the default).
    Disabled,
    /// New random numbers are generated.
    Enabled,
    /// New random numbers are generated from this seed.
    EnabledWithSeed(u64),
}

/// How a `RandomGeneration` is written: a flag, or a seed.
#[derive(Debug, PartialEq, Eq, Structural, Clone, Copy)]
pub enum RandomGenerationRepr {
    IsEnabled(bool),
    Seed(u64),
}

impl Default for RandomGeneration {
    fn default() -> (r: Self)
        ensures
            r == RandomGeneration::Disabled,
    {
        RandomGeneration::Disabled
    }
}

/// How a setting is written.
pub open spec fn repr_of(g: RandomGeneration) -> RandomGenerationRepr {
    match g {
        RandomGeneration::EnabledWithSeed(s) => RandomGenerationRepr::Seed(s),
        RandomGeneration::Enabled => RandomGenerationRepr::IsEnabled(true),
        RandomGeneration::Disabled => RandomGenerationRepr::IsEnabled(false),
    }
}

/// What a written setting means.
pub open spec fn generation_of(r: RandomGenerationRepr) -> RandomGeneration {
    match r {
        RandomGenerationRepr::Seed(s) => RandomGeneration::EnabledWithSeed(s),
        RandomGenerationRepr::IsEnabled(true) => RandomGeneration::Enabled,
        RandomGenerationRepr::IsEnabled(false) => RandomGeneration::Disabled,
    }
}

impl From<RandomGeneration> for RandomGenerationRepr {
    fn from(value: RandomGeneration) -> (r: Self) {
        match value {
            RandomGeneration::EnabledWithSeed(s) => RandomGenerationRepr::Seed(s),
            RandomGeneration::Enabled => RandomGenerationRepr::IsEnabled(true),
            RandomGeneration::Disabled => RandomGenerationRepr::IsEnabled(false),
        }
    }
}

impl vstd::std_specs::convert::FromSpecImpl<RandomGeneration> for RandomGenerationRepr {
    open spec fn obeys_from_spec() -> bool {
        true
    }

    open spec fn from_spec(value: RandomGeneration) -> RandomGenerationRepr {
        repr_of(value)
    }
}

impl From<RandomGenerationRepr> for RandomGeneration {
    fn from(value: RandomGenerationRepr) -> (r: Self) {
        match value {
            RandomGenerationRepr::Seed(s) => RandomGeneration::EnabledWithSeed(s),
            RandomGenerationRepr::IsEnabled(true) => RandomGeneration::Enabled,
            RandomGenerationRepr::IsEnabled(false) => RandomGeneration::Disabled,
        }
    }
}

impl vstd::std_specs::convert::FromSpecImpl<RandomGenerationRepr> for RandomGeneration {
    open spec fn obeys_from_spec() -> bool {
        true
    }

    open spec fn from_spec(value: RandomGenerationRepr) -> RandomGeneration {
        generation_of(value)
    }
}

/// Writing a setting and reading it back gives the setting.
pub proof fn lemma_repr_round_trip(g: RandomGeneration)
    ensures
        generation_of(repr_of(g)) == g,
{
}

/// Every written form means one setting, and is how that setting is written.
pub proof fn lemma_repr_unique(r: RandomGenerationRepr)
    ensures
        repr_of(generation_of(r)) == r,
{
}

/// The hooks of a list: pairs of a criterion and the action to run when it
/// is fulfilled, in order.
#[derive(Debug)]
pub struct HookList(pub Vec<(EntityId<CriterionEntity>, EntityId<ActionEntity>)>);

impl HookList {
    /// No hooks.
    pub fn new() -> (r: Self)
        ensures
            r.0@.len() == 0,
    {
        HookList(Vec::new())
    }

    /// The number of hooks.
    pub fn len(&self) -> (r: usize)
        ensures
            r == self.0@.len(),
    {
        self.0.len()
    }

    /// The hook at `i`.
    pub fn get(&self, i: usize) -> (r: (EntityId<CriterionEntity>, EntityId<ActionEntity>))
        requires
            i < self.0@.len(),
        ensures
            r.0.0 == self.0@[i as int].0.0,
            r.1.0 == self.0@[i as int].1.0,
    {
        self.0[i]
    }
}

/// The hooks around all categories of a specification.
#[derive(Debug)]
pub struct SpecHooks<HL> {
    pub before_all_categories: HL,
    pub after_all_categories: HL,
}

/// The hooks around all tests of a category.
#[derive(Debug)]
pub struct CategoryHooks<HL> {
    pub before_all_tests: HL,
    pub after_all_tests: HL,
}

/// The hooks of a main test.
#[derive(Debug)]
pub struct MainTestHooks<HL> {
    pub before_main: HL,
    pub before_alternatives: HL,
    pub after_alternatives: HL,
}

/// The hooks of an alternative test.
#[derive(Debug)]
pub struct AlternativeTestHooks<HL> {
    pub before_alt: HL,
    pub after_alt: HL,
}

/// What every test has: its title, its criterion, what the run is given,
/// and its hooks.
#[derive(Debug)]
pub struct GeneralTest<Hooks> {
    pub title: String,
    pub criterion: EntityId<CriterionEntity>,
    pub input: Option<Vec<PrimitiveValue>>,
    pub random_generation: RandomGeneration,
    pub predefined_randoms: Option<Vec<Numeric>>,
    pub initial_variables: Option<BTreeMap<String, PrimitiveValue>>,
    pub initial_lists: Option<BTreeMap<String, Vec<PrimitiveValue>>>,
    pub hooks: Hooks,
}

/// An alternative to a main test, tried when the main test fails.
#[derive(Debug)]
pub struct AlternativeTest {
    pub general: GeneralTest<AlternativeTestHooks<HookList>>,
}

/// A main test and its alternatives.
#[derive(Debug)]
pub struct MainTest {
    pub general: GeneralTest<MainTestHooks<HookList>>,
    pub alternative_tests: Vec<AlternativeTest>,
}

/// A category of main tests.
#[derive(Debug)]
pub struct Category {
    pub title: String,
    pub description: Option<String>,
    pub tests: Vec<MainTest>,
    pub hooks: CategoryHooks<HookList>,
}

/// A specification: its categories, its hooks and its entities by id.
#[derive(Debug)]
pub struct Bast3StSpec {
    pub title: String,
    pub description: Option<String>,
    pub categories: Vec<Category>,
    pub hooks: SpecHooks<HookList>,
    pub entities: BTreeMap<u64, Entity>,
}

impl MsgType for Bast3StSpec {
    open spec fn spec_level() -> MessageSendingLevel {
        MessageSendingLevel::Spec
    }

    fn level() -> (r: MessageSendingLevel) {
        MessageSendingLevel::Spec
    }
}

impl MsgType for Category {
    open spec fn spec_level() -> MessageSendingLevel {
        MessageSendingLevel::Category
    }

    fn level() -> (r: MessageSendingLevel) {
        MessageSendingLevel::Category
    }
}

impl MsgType for MainTest {
    open spec fn spec_level() -> MessageSendingLevel {
        MessageSendingLevel::Maintest
    }

    fn level() -> (r: MessageSendingLevel) {
        MessageSendingLevel::Maintest
    }
}

impl MsgType for AlternativeTest {
    open spec fn spec_level() -> MessageSendingLevel {
        MessageSendingLevel::Current
    }

    fn level() -> (r: MessageSendingLevel) {
        MessageSendingLevel::Current
    }
}

} // verus!

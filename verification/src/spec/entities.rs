//! The entities of a specification: criteria, actions and values that refer
//! to each other by id.
use vstd::prelude::*;

use crate::catchable::cerr;
use crate::features::{Features, RequiredFeatures};
use crate::spec::text::Text;
use crate::spec::values::{MapKey, PrimitiveValue};

verus! {

/// The id of an entity; `T` names the kind of entity it refers to.
#[derive(Debug)]
pub struct EntityId<T>(pub u64, pub core::marker::PhantomData<T>);

impl<T> Clone for EntityId<T> {
    fn clone(&self) -> (r: Self)
        ensures
            r.0 == self.0,
    {
        EntityId(self.0, core::marker::PhantomData)
    }
}

impl<T> Copy for EntityId<T> {
}

impl<T> EntityId<T> {
    /// The id with the given number.
    pub fn new(id: u64) -> (r: Self)
        ensures
            r.0 == id,
    {
        EntityId(id, core::marker::PhantomData)
    }

    /// The number of this id.
    pub fn id(&self) -> (r: u64)
        ensures
            r == self.0,
    {
        self.0
    }

    /// The same id, for another kind of entity (within the crate).
    pub(crate) fn _cast_id<U>(self) -> (r: EntityId<U>)
        ensures
            r.0 == self.0,
    {
        EntityId(self.0, core::marker::PhantomData)
    }

    /// The same id, for another kind of entity.
    pub fn cast_id<U>(self) -> (r: EntityId<U>)
        ensures
            r.0 == self.0,
    {
        EntityId(self.0, core::marker::PhantomData)
    }
}

/// How severe a message is.
#[derive(Debug, PartialEq, Eq, Structural, Clone, Copy, PartialOrd, Ord, Hash)]
pub enum MessageSeverity {
    Error,
    Warning,
    Info,
}

/// The HTTP method of a network request.
#[derive(Debug, PartialEq, Eq, Structural, Clone, Copy, PartialOrd, Ord, Hash)]
pub enum NetworkMethod {
    Get,
    Post,
}

/// How an explicit end of a test counts.
#[derive(Debug, PartialEq, Eq, Structural, Clone, Copy, PartialOrd, Ord, Hash)]
pub enum EndThisTestMode {
    Pass,
    Fail,
}

/// How a flag is set; currently this carries no information.
#[derive(Debug, PartialEq, Eq, Structural, Clone, Copy, PartialOrd, Ord, Hash)]
pub enum SetFlagMode {
    Keep,
}

/// Where a message is sent.
#[derive(Debug, PartialEq, Eq, Structural, Clone, Copy, PartialOrd, Ord, Hash)]
pub enum MessageSendingLevel {
    Spec,
    Category,
    Maintest,
    Current,
}

/// A derived property of a collection.
#[derive(Debug, PartialEq, Eq, Structural, Clone, Copy, PartialOrd, Ord, Hash)]
pub enum PropertyPerspective {
    Sum,
    Length,
}

/// A criterion with a fixed outcome.
#[derive(Debug, PartialEq, Eq, Structural, Clone, Copy, PartialOrd, Ord, Hash)]
pub enum SpecialCritVariant {
    AlwaysFulfilled,
    NeverFulfilled,
}

/// The data sets that an evaluation can read.
#[derive(Debug, PartialEq, Eq, Structural, Clone, Copy, PartialOrd, Ord, Hash)]
pub enum Coremapping {
    Input,
    Output,
    Lists,
    Variables,
    Randoms,
    Flags,
    Param,
}

impl Default for MessageSendingLevel {
    fn default() -> (r: Self)
        ensures
            r == MessageSendingLevel::Current,
    {
        MessageSendingLevel::Current
    }
}

impl Default for SetFlagMode {
    fn default() -> (r: Self)
        ensures
            r == SetFlagMode::Keep,
    {
        SetFlagMode::Keep
    }
}

/// The capabilities that sending a message to `level` needs.
pub open spec fn level_features(level: MessageSendingLevel) -> Features {
    match level {
        MessageSendingLevel::Spec => Features::SENDMSG_SPEC(),
        MessageSendingLevel::Category => Features::SENDMSG_CATEGORY(),
        MessageSendingLevel::Maintest => Features::SENDMSG_MAINTEST(),
        MessageSendingLevel::Current => Features::SENDMSG_CURRENT(),
    }
}

impl RequiredFeatures for MessageSendingLevel {
    fn required_features(&self) -> (r: Features)
        ensures
            r == level_features(*self),
    {
        match self {
            MessageSendingLevel::Spec => Features::SENDMSG_SPEC(),
            MessageSendingLevel::Category => Features::SENDMSG_CATEGORY(),
            MessageSendingLevel::Maintest => Features::SENDMSG_MAINTEST(),
            MessageSendingLevel::Current => Features::SENDMSG_CURRENT(),
        }
    }
}

/// The capabilities that reading `m` needs: the data of a run needs
/// `READ_RUNDATA`, parameters and flags need nothing.
pub open spec fn coremapping_features(m: Coremapping) -> Features {
    match m {
        Coremapping::Param | Coremapping::Flags => Features::empty(),
        _ => Features::READ_RUNDATA(),
    }
}

impl RequiredFeatures for Coremapping {
    fn required_features(&self) -> (r: Features)
        ensures
            r == coremapping_features(*self),
    {
        match self {
            Coremapping::Param | Coremapping::Flags => Features::empty(),
            _ => Features::READ_RUNDATA(),
        }
    }
}

/// What an evaluation reads from outside: a whole data set, or the item at a
/// key path inside one.
#[derive(Debug, PartialEq, Eq, PartialOrd, Ord, Hash)]
pub enum Selector {
    Coremap(Coremapping),
    CoremapItem { mapping: Coremapping, key: Vec<MapKey> },
}

impl Selector {
    /// The data set that this selector reads from.
    pub open spec fn spec_mapping(&self) -> Coremapping {
        match self {
            Selector::Coremap(m) => *m,
            Selector::CoremapItem { mapping, .. } => *mapping,
        }
    }

    /// The whole data set `m`.
    pub fn coremap(m: Coremapping) -> (r: Selector)
        ensures
            r == Selector::Coremap(m),
    {
        Selector::Coremap(m)
    }
}

impl Clone for Selector {
    fn clone(&self) -> (r: Self)
        ensures
            r.spec_mapping() == self.spec_mapping(),
            r is Coremap <==> self is Coremap,
            r is CoremapItem ==> r->key@.map_values(|k: MapKey| k@) == self->key@.map_values(
                |k: MapKey| k@,
            ),
    {
        match self {
            Selector::Coremap(m) => Selector::Coremap(*m),
            Selector::CoremapItem { mapping, key } => {
                let mut k: Vec<MapKey> = Vec::new();
                let mut i: usize = 0;
                while i < key.len()
                    invariant
                        i <= key.len(),
                        k@.len() == i,
                        forall|j: int| 0 <= j < i ==> (#[trigger] k@[j])@ == key@[j]@,
                    decreases key.len() - i,
                {
                    k.push(key[i].clone());
                    i = i + 1;
                }
                assert(k@.map_values(|x: MapKey| x@) =~= key@.map_values(|x: MapKey| x@));
                Selector::CoremapItem { mapping: *mapping, key: k }
            },
        }
    }
}

impl RequiredFeatures for Selector {
    fn required_features(&self) -> (r: Features)
        ensures
            r == coremapping_features(self.spec_mapping()),
    {
        match self {
            Selector::Coremap(m) => m.required_features(),
            Selector::CoremapItem { mapping, .. } => mapping.required_features(),
        }
    }
}

/// A reference to a value: a literal text or the id of a value entity.
#[derive(Debug)]
pub enum ValueReference {
    LitString(Text),
    EntityId(EntityId<ValueEntity>),
}

impl Clone for ValueReference {
    fn clone(&self) -> (r: Self)
        ensures
            match (r, *self) {
                (ValueReference::LitString(a), ValueReference::LitString(b)) => a@ == b@,
                (ValueReference::EntityId(a), ValueReference::EntityId(b)) => a.0 == b.0,
                _ => false,
            },
    {
        match self {
            ValueReference::LitString(t) => ValueReference::LitString(t.clone()),
            ValueReference::EntityId(id) => ValueReference::EntityId(*id),
        }
    }
}

/// A criterion: a check that is fulfilled or not.
#[derive(Debug)]
pub enum CriterionEntity {
    Negated { failure_explaination: Option<ValueReference>, clause: EntityId<CriterionEntity> },
    AnyOf { failure_explaination: Option<ValueReference>, clauses: Vec<EntityId<CriterionEntity>> },
    AllOf { failure_explaination: Option<ValueReference>, clauses: Vec<EntityId<CriterionEntity>> },
    ContainOnlynum {
        failure_explaination: Option<ValueReference>,
        sub: ValueReference,
        sup: ValueReference,
    },
    ContainNum {
        failure_explaination: Option<ValueReference>,
        sub: ValueReference,
        sup: ValueReference,
    },
    ContainText {
        failure_explaination: Option<ValueReference>,
        sub: ValueReference,
        sup: ValueReference,
    },
    ContainWithGaps {
        failure_explaination: Option<ValueReference>,
        parts: Vec<ValueReference>,
        sup: ValueReference,
    },
    MatchesRegex {
        failure_explaination: Option<ValueReference>,
        pattern: ValueReference,
        sup: ValueReference,
    },
    GreaterThen {
        failure_explaination: Option<ValueReference>,
        left: ValueReference,
        right: ValueReference,
    },
    LowerThen {
        failure_explaination: Option<ValueReference>,
        left: ValueReference,
        right: ValueReference,
    },
    GreaterEqual {
        failure_explaination: Option<ValueReference>,
        left: ValueReference,
        right: ValueReference,
    },
    LowerEqual {
        failure_explaination: Option<ValueReference>,
        left: ValueReference,
        right: ValueReference,
    },
    NotEqual {
        failure_explaination: Option<ValueReference>,
        left: ValueReference,
        right: ValueReference,
    },
    Equal {
        failure_explaination: Option<ValueReference>,
        left: ValueReference,
        right: ValueReference,
    },
    Catch {
        failure_explaination: Option<ValueReference>,
        criterion: EntityId<CriterionEntity>,
        error: cerr,
        only_if: Option<EntityId<CriterionEntity>>,
        default_value: Option<EntityId<CriterionEntity>>,
        action: Option<EntityId<ActionEntity>>,
    },
    IfThenElse {
        failure_explaination: Option<ValueReference>,
        if_: EntityId<CriterionEntity>,
        then_: EntityId<CriterionEntity>,
        else_: EntityId<CriterionEntity>,
    },
}

/// An action: something that an evaluation asks the test run to do.
#[derive(Debug)]
#[allow(inconsistent_fields)]
pub enum ActionEntity {
    SendMsg { text: ValueReference, severity: MessageSeverity, level: MessageSendingLevel },
    EndThisTest { mode: EndThisTestMode, explaination: ValueReference },
    SetFlag { mode: SetFlagMode, key: Vec<ValueReference>, value: ValueReference },
    IfThenElse {
        if_: EntityId<CriterionEntity>,
        then_: EntityId<ActionEntity>,
        else_: EntityId<ActionEntity>,
    },
}

/// The capabilities that an action needs.
pub open spec fn action_features(a: ActionEntity) -> Features {
    match a {
        ActionEntity::SendMsg { level, .. } => level_features(level),
        ActionEntity::EndThisTest { .. } => Features::END_THIS_TEST(),
        _ => Features::empty(),
    }
}

impl RequiredFeatures for ActionEntity {
    fn required_features(&self) -> (r: Features)
        ensures
            r == action_features(*self),
    {
        match self {
            ActionEntity::SendMsg { level, .. } => level.required_features(),
            ActionEntity::EndThisTest { .. } => Features::END_THIS_TEST(),
            ActionEntity::SetFlag { .. } | ActionEntity::IfThenElse { .. } => Features::empty(),
        }
    }
}

/// A value: a literal, data read from the run, or a computation on other
/// values.
#[derive(Debug)]
#[allow(inconsistent_fields)]
pub enum ValueEntity {
    Lit { value: PrimitiveValue },
    Concat { a: Vec<ValueReference> },
    ReadInput {},
    ReadOutput {},
    ReadLists {},
    ReadVariables {},
    ReadRandoms {},
    ReadBlockcount {},
    ReadParam {},
    NetworkRequest {
        server: Text,
        route: ValueReference,
        method: NetworkMethod,
        allowed_status: Option<Vec<u16>>,
        json: Option<Vec<(ValueReference, ValueReference)>>,
    },
    View { perspective: Text, mapping: ValueReference },
    Mapitem { mapping: ValueReference, keys: Vec<ValueReference> },
    Add { left: ValueReference, right: ValueReference },
    Sub { left: ValueReference, right: ValueReference },
    Mul { left: ValueReference, right: ValueReference },
    Truediv { left: ValueReference, right: ValueReference },
    Floordiv { left: ValueReference, right: ValueReference },
    Mod { left: ValueReference, right: ValueReference },
    Pow { left: ValueReference, right: ValueReference },
    Neg { value: ValueReference },
    Floor { value: ValueReference },
    Ceil { value: ValueReference },
    Round { value: ValueReference },
    Abs { value: ValueReference },
    FirstCaptureOfRegex { pattern: ValueReference, sup: ValueReference, group: Option<ValueReference> },
    Catch {
        value: ValueReference,
        error: cerr,
        only_if: Option<EntityId<CriterionEntity>>,
        default_value: Option<ValueReference>,
        action: Option<EntityId<ActionEntity>>,
    },
    ToUpper { value: ValueReference },
    ToLower { value: ValueReference },
    TrimStart { value: ValueReference },
    TrimEnd { value: ValueReference },
    Trim { value: ValueReference },
    IfThenElse { if_: EntityId<CriterionEntity>, then_: ValueReference, else_: ValueReference },
    Length { value: ValueReference },
}

/// An entity of a specification.
#[derive(Debug)]
pub enum Entity {
    Criterion(CriterionEntity),
    Action(ActionEntity),
    Value(ValueEntity),
}

} // verus!

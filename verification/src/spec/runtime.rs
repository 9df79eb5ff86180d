//! What evaluating entities produces: criteria results, actions, values and
//! errors, with their models.
use vstd::prelude::*;

use crate::catchable::cerr;
use crate::features::Features;
use crate::spec::entities::{
    EndThisTestMode, MessageSendingLevel, MessageSeverity, SetFlagMode, SpecialCritVariant,
    Selector,
};
use crate::spec::text::Text;
use crate::spec::values::{
    KeyV, MapKey, NumV, Numeric, PrimV, PrimitiveValue, RuntimeValue, ValueV, RealMapping,
    clone_value,
};

verus! {

// ---------------------------------------------------------------------------
// Models
// ---------------------------------------------------------------------------

/// Model of an optional evaluation.
pub enum MaybeV<T> {
    Unevaluated,
    Evaluated(T),
}

/// Model of an action.
pub enum ActV {
    SendMsg(MessageSendingLevel, MessageSeverity, Seq<char>),
    EndThisTest(EndThisTestMode, Seq<char>),
    SetFlag(SetFlagMode, Seq<KeyV>, PrimV),
}

/// Model of an evaluated criterion: whether it is fulfilled (else the
/// optional explanation of the failure) and how it was decided.
pub struct CritV {
    pub fulfilled: Result<(), Option<Seq<char>>>,
    pub inner: InnerV,
}

/// Model of how a criterion was decided.
pub enum InnerV {
    Negated(Box<CritV>),
    AnyOf(Seq<MaybeV<CritV>>),
    AllOf(Seq<MaybeV<CritV>>),
    ContainOnlynum(PrimV, Seq<char>, Seq<NumV>),
    ContainNum(NumV, Seq<char>, Seq<NumV>),
    ContainText(PrimV, Seq<char>),
    ContainWithGaps(Seq<PrimV>, nat, Seq<char>),
    MatchesRegex(Seq<char>, ValueV),
    GreaterThen(PrimV, PrimV),
    LowerThen(PrimV, PrimV),
    GreaterEqual(PrimV, PrimV),
    LowerEqual(PrimV, PrimV),
    NotEqual(PrimV, PrimV),
    Equal(PrimV, PrimV),
    IfThenElse(Box<CritV>, Box<CritV>, Box<MaybeV<CritV>>),
    SpecialCrit(SpecialCritVariant),
}

/// Model of anything an entity evaluates to.
pub enum AnyV {
    Criterion(CritV),
    Action(ActV),
    Value(ValueV),
    Catchable(cerr),
}

// ---------------------------------------------------------------------------
// Executable types
// ---------------------------------------------------------------------------

/// A value that may not have been evaluated.
#[derive(Debug, PartialEq, Eq, PartialOrd, Ord, Hash)]
pub enum MaybeEval<T> {
    Unevaluated,
    Evaluated(T),
}

impl<T: Clone> Clone for MaybeEval<T> {
    /// The same state, with the value cloned.
    fn clone(&self) -> (r: Self)
        ensures
            match (*self, r) {
                (MaybeEval::Evaluated(x), MaybeEval::Evaluated(y)) => cloned::<T>(x, y),
                (MaybeEval::Unevaluated, MaybeEval::Unevaluated) => true,
                _ => false,
            },
    {
        match self {
            MaybeEval::Evaluated(t) => MaybeEval::Evaluated(t.clone()),
            MaybeEval::Unevaluated => MaybeEval::Unevaluated,
        }
    }
}

impl<T> Default for MaybeEval<T> {
    /// Not evaluated.
    fn default() -> (r: Self)
        ensures
            r is Unevaluated,
    {
        MaybeEval::Unevaluated
    }
}

impl<T> From<T> for MaybeEval<T> {
    /// An evaluated value.
    fn from(value: T) -> (r: Self)
        ensures
            r == MaybeEval::Evaluated(value),
    {
        MaybeEval::Evaluated(value)
    }
}

impl<T> vstd::std_specs::convert::FromSpecImpl<T> for MaybeEval<T> {
    open spec fn obeys_from_spec() -> bool {
        true
    }

    open spec fn from_spec(value: T) -> MaybeEval<T> {
        MaybeEval::Evaluated(value)
    }
}

impl<T> MaybeEval<T> {
    /// The value, if it was evaluated.
    pub fn as_eval(&self) -> (r: Option<&T>)
        ensures
            match *self {
                MaybeEval::Evaluated(t) => r == Some(&t),
                MaybeEval::Unevaluated => r is None,
            },
    {
        match self {
            MaybeEval::Evaluated(t) => Some(t),
            MaybeEval::Unevaluated => None,
        }
    }

    /// The value, if it was evaluated.
    pub fn into_eval(self) -> (r: Option<T>)
        ensures
            match self {
                MaybeEval::Evaluated(t) => r == Some(t),
                MaybeEval::Unevaluated => r is None,
            },
    {
        match self {
            MaybeEval::Evaluated(t) => Some(t),
            MaybeEval::Unevaluated => None,
        }
    }
}

/// An action that sends a message.
#[derive(Debug)]
pub struct SendMsgAction {
    pub level: MessageSendingLevel,
    pub severity: MessageSeverity,
    pub text: Text,
}

/// An action that ends the current test.
#[derive(Debug)]
pub struct EndThisTestAction {
    pub mode: EndThisTestMode,
    pub explaination: Text,
}

/// An action that sets a flag at a key path.
#[derive(Debug)]
pub struct SetFlagAction {
    pub mode: SetFlagMode,
    pub key: Vec<MapKey>,
    pub value: PrimitiveValue,
}

/// An evaluated action.
#[derive(Debug)]
pub enum RuntimeAction {
    SendMsg(SendMsgAction),
    EndThisTest(EndThisTestAction),
    SetFlag(SetFlagAction),
}

/// An evaluated criterion.
#[derive(Debug)]
pub struct RuntimeCriterion {
    pub fulfilled: Result<(), Option<Text>>,
    pub inner: InnerRuntimeCriterion,
}

/// How a criterion was decided.
#[derive(Debug)]
#[allow(inconsistent_fields)]
pub enum InnerRuntimeCriterion {
    Negated { clause: Box<RuntimeCriterion> },
    AnyOf { clauses: Vec<MaybeEval<RuntimeCriterion>> },
    AllOf { clauses: Vec<MaybeEval<RuntimeCriterion>> },
    ContainOnlynum { sub: PrimitiveValue, sup: Text, found: Vec<Numeric> },
    ContainNum { sub: Numeric, sup: Text, found: Vec<Numeric> },
    ContainText { sub: PrimitiveValue, sup: Text },
    ContainWithGaps { parts: Vec<PrimitiveValue>, unevaluated_parts: usize, sup: Text },
    MatchesRegex { pattern: Text, sup: RuntimeValue },
    GreaterThen { left: PrimitiveValue, right: PrimitiveValue },
    LowerThen { left: PrimitiveValue, right: PrimitiveValue },
    GreaterEqual { left: PrimitiveValue, right: PrimitiveValue },
    LowerEqual { left: PrimitiveValue, right: PrimitiveValue },
    NotEqual { left: PrimitiveValue, right: PrimitiveValue },
    Equal { left: PrimitiveValue, right: PrimitiveValue },
    IfThenElse {
        if_: Box<RuntimeCriterion>,
        selected_branch: Box<RuntimeCriterion>,
        other_branch: Box<MaybeEval<RuntimeCriterion>>,
    },
    SpecialCrit { variant: SpecialCritVariant },
}

/// What an entity evaluates to, or the catchable error it ended with.
#[derive(Debug)]
pub enum RuntimeAny {
    Criterion(RuntimeCriterion),
    Action(RuntimeAction),
    Value(RuntimeValue),
    Catchable(cerr),
}

/// An error that ends an evaluation.
#[derive(Debug)]
pub enum FatalError {
    FeatureMissmatch { required: Features, provided: Features },
    RequestedSelectorValueNotAvailable(Selector),
    EntityNotFound(u64),
    CyclicIdReferences(u64),
    /// A delivered answer does not fit the question that was asked.
    AnswerMismatch,
}

/// The kind of a network request.
#[derive(Debug)]
pub enum InnerNetworkRequest {
    Get,
    Post { json: Option<Vec<(Text, RuntimeValue)>> },
}

/// A network request that an evaluation asks for.
#[derive(Debug)]
pub struct NetworkRequest {
    pub server: Text,
    pub route: Text,
    pub specific: InnerNetworkRequest,
}

/// The response to a network request.
#[derive(Debug, PartialEq, Eq, Structural, Clone, Copy)]
pub struct NetworkResponse {
    pub status: u16,
}

/// A regular expression that an evaluation asks to compile.
#[derive(Debug)]
pub struct CompiledRegex(pub Text);

/// A request whose result comes from outside the evaluation.
pub trait SpecificTaskRequest {
}

impl SpecificTaskRequest for NetworkRequest {
}

impl SpecificTaskRequest for CompiledRegex {
}

// ---------------------------------------------------------------------------
// Views
// ---------------------------------------------------------------------------

impl View for RuntimeAction {
    type V = ActV;

    open spec fn view(&self) -> ActV {
        match self {
            RuntimeAction::SendMsg(s) => ActV::SendMsg(s.level, s.severity, s.text@),
            RuntimeAction::EndThisTest(e) => ActV::EndThisTest(e.mode, e.explaination@),
            RuntimeAction::SetFlag(f) => ActV::SetFlag(
                f.mode,
                f.key@.map_values(|k: MapKey| k@),
                f.value@,
            ),
        }
    }
}

/// The model of an optional explanation.
pub open spec fn fulfilled_view(f: Result<(), Option<Text>>) -> Result<(), Option<Seq<char>>> {
    match f {
        Ok(()) => Ok(()),
        Err(None) => Err(None),
        Err(Some(t)) => Err(Some(t@)),
    }
}

/// The model of an evaluated criterion.
pub open spec fn crit_view(c: RuntimeCriterion) -> CritV
    decreases c, 1int,
{
    CritV { fulfilled: fulfilled_view(c.fulfilled), inner: inner_view(c.inner) }
}

/// The model of a possibly evaluated criterion.
pub open spec fn maybe_crit_view(m: MaybeEval<RuntimeCriterion>) -> MaybeV<CritV>
    decreases m, 2int,
{
    match m {
        MaybeEval::Unevaluated => MaybeV::Unevaluated,
        MaybeEval::Evaluated(c) => MaybeV::Evaluated(crit_view(c)),
    }
}

/// The model of a list of possibly evaluated criteria.
pub open spec fn maybe_crits_view(v: Vec<MaybeEval<RuntimeCriterion>>) -> Seq<MaybeV<CritV>>
    decreases v, 3int,
{
    Seq::new(
        v@.len(),
        |i: int|
            if 0 <= i < v@.len() {
                maybe_crit_view(v@[i])
            } else {
                MaybeV::Unevaluated
            },
    )
}

/// The model of how a criterion was decided.
pub open spec fn inner_view(i: InnerRuntimeCriterion) -> InnerV
    decreases i, 0int,
{
    match i {
        InnerRuntimeCriterion::Negated { clause } => InnerV::Negated(Box::new(crit_view(*clause))),
        InnerRuntimeCriterion::AnyOf { clauses } => InnerV::AnyOf(maybe_crits_view(clauses)),
        InnerRuntimeCriterion::AllOf { clauses } => InnerV::AllOf(maybe_crits_view(clauses)),
        InnerRuntimeCriterion::ContainOnlynum { sub, sup, found } => InnerV::ContainOnlynum(
            sub@,
            sup@,
            found@.map_values(|n: Numeric| n@),
        ),
        InnerRuntimeCriterion::ContainNum { sub, sup, found } => InnerV::ContainNum(
            sub@,
            sup@,
            found@.map_values(|n: Numeric| n@),
        ),
        InnerRuntimeCriterion::ContainText { sub, sup } => InnerV::ContainText(sub@, sup@),
        InnerRuntimeCriterion::ContainWithGaps { parts, unevaluated_parts, sup } =>
            InnerV::ContainWithGaps(
            parts@.map_values(|p: PrimitiveValue| p@),
            unevaluated_parts as nat,
            sup@,
        ),
        InnerRuntimeCriterion::MatchesRegex { pattern, sup } => InnerV::MatchesRegex(
            pattern@,
            sup@,
        ),
        InnerRuntimeCriterion::GreaterThen { left, right } => InnerV::GreaterThen(left@, right@),
        InnerRuntimeCriterion::LowerThen { left, right } => InnerV::LowerThen(left@, right@),
        InnerRuntimeCriterion::GreaterEqual { left, right } => InnerV::GreaterEqual(
            left@,
            right@,
        ),
        InnerRuntimeCriterion::LowerEqual { left, right } => InnerV::LowerEqual(left@, right@),
        InnerRuntimeCriterion::NotEqual { left, right } => InnerV::NotEqual(left@, right@),
        InnerRuntimeCriterion::Equal { left, right } => InnerV::Equal(left@, right@),
        InnerRuntimeCriterion::IfThenElse { if_, selected_branch, other_branch } =>
            InnerV::IfThenElse(
            Box::new(crit_view(*if_)),
            Box::new(crit_view(*selected_branch)),
            Box::new(maybe_crit_view(*other_branch)),
        ),
        InnerRuntimeCriterion::SpecialCrit { variant } => InnerV::SpecialCrit(variant),
    }
}

impl View for RuntimeCriterion {
    type V = CritV;

    open spec fn view(&self) -> CritV {
        crit_view(*self)
    }
}

impl View for RuntimeAny {
    type V = AnyV;

    open spec fn view(&self) -> AnyV {
        match self {
            RuntimeAny::Criterion(c) => AnyV::Criterion(c@),
            RuntimeAny::Action(a) => AnyV::Action(a@),
            RuntimeAny::Value(v) => AnyV::Value(v@),
            RuntimeAny::Catchable(e) => AnyV::Catchable(*e),
        }
    }
}

// ---------------------------------------------------------------------------
// Criteria
// ---------------------------------------------------------------------------

impl RuntimeCriterion {
    /// A criterion result: fulfilled, or not with the given explanation.
    pub fn new(
        is_fulfilled: bool,
        failure_explaination: Option<Text>,
        inner: InnerRuntimeCriterion,
    ) -> (r: Self)
        ensures
            r.inner == inner,
            is_fulfilled ==> r.fulfilled is Ok,
            !is_fulfilled ==> r.fulfilled == Err::<(), Option<Text>>(failure_explaination),
    {
        if is_fulfilled {
            Self::new_fulfilled(inner)
        } else {
            Self::new_unfulfilled(failure_explaination, inner)
        }
    }

    /// A fulfilled criterion result.
    pub fn new_fulfilled(inner: InnerRuntimeCriterion) -> (r: Self)
        ensures
            r.inner == inner,
            r.fulfilled is Ok,
    {
        RuntimeCriterion { inner, fulfilled: Ok(()) }
    }

    /// A criterion result that is not fulfilled.
    pub fn new_unfulfilled(failure_explaination: Option<Text>, inner: InnerRuntimeCriterion) -> (r:
        Self)
        ensures
            r.inner == inner,
            r.fulfilled == Err::<(), Option<Text>>(failure_explaination),
    {
        RuntimeCriterion { inner, fulfilled: Err(failure_explaination) }
    }

    /// Whether the criterion is fulfilled.
    pub fn is_fulfilled(&self) -> (r: bool)
        ensures
            r == self.fulfilled is Ok,
    {
        self.fulfilled.is_ok()
    }

    /// Whether the criterion is not fulfilled.
    pub fn is_not_fulfilled(&self) -> (r: bool)
        ensures
            r == self.fulfilled is Err,
    {
        self.fulfilled.is_err()
    }

    /// The explanation of a failure, if there is one.
    pub fn failure_explaination(&self) -> (r: Option<&Text>)
        ensures
            match self.fulfilled {
                Err(Some(t)) => r == Some(&t),
                _ => r is None,
            },
    {
        match &self.fulfilled {
            Err(Some(t)) => Some(t),
            _ => None,
        }
    }
}

impl InnerRuntimeCriterion {
    /// A criterion result built from this decision.
    pub fn build(self, is_fulfilled: bool, failure_explaination: Option<Text>) -> (r:
        RuntimeCriterion)
        ensures
            r.inner == self,
            is_fulfilled ==> r.fulfilled is Ok,
            !is_fulfilled ==> r.fulfilled == Err::<(), Option<Text>>(failure_explaination),
    {
        RuntimeCriterion::new(is_fulfilled, failure_explaination, self)
    }

    /// A fulfilled criterion result built from this decision.
    pub fn build_fulfilled(self) -> (r: RuntimeCriterion)
        ensures
            r.inner == self,
            r.fulfilled is Ok,
    {
        RuntimeCriterion::new_fulfilled(self)
    }

    /// An unfulfilled criterion result built from this decision.
    pub fn build_unfulfilled(self, failure_explaination: Option<Text>) -> (r: RuntimeCriterion)
        ensures
            r.inner == self,
            r.fulfilled == Err::<(), Option<Text>>(failure_explaination),
    {
        RuntimeCriterion::new_unfulfilled(failure_explaination, self)
    }
}

// ---------------------------------------------------------------------------
// Actions
// ---------------------------------------------------------------------------

impl EndThisTestMode {
    /// The action that ends the test in this mode with the given explanation.
    pub fn action_with(self, explaination: Text) -> (r: EndThisTestAction)
        ensures
            r.mode == self,
            r.explaination == explaination,
    {
        EndThisTestAction { mode: self, explaination }
    }
}

impl MessageSeverity {
    /// The action that sends a message of this severity.
    pub fn action_with(self, level: MessageSendingLevel, text: Text) -> (r: SendMsgAction)
        ensures
            r.severity == self,
            r.level == level,
            r.text == text,
    {
        SendMsgAction { severity: self, level, text }
    }
}

impl SetFlagAction {
    /// The mode, the key path and the value.
    pub fn into_parts(self) -> (r: (SetFlagMode, Vec<MapKey>, PrimitiveValue))
        ensures
            r == (self.mode, self.key, self.value),
    {
        (self.mode, self.key, self.value)
    }
}

impl Clone for EndThisTestAction {
    fn clone(&self) -> (r: Self)
        ensures
            r.mode == self.mode,
            r.explaination@ == self.explaination@,
    {
        EndThisTestAction { mode: self.mode, explaination: self.explaination.clone() }
    }
}

impl Clone for RuntimeAction {
    fn clone(&self) -> (r: Self)
        ensures
            r@ == self@,
    {
        match self {
            RuntimeAction::SendMsg(s) => RuntimeAction::SendMsg(
                SendMsgAction { level: s.level, severity: s.severity, text: s.text.clone() },
            ),
            RuntimeAction::EndThisTest(e) => RuntimeAction::EndThisTest(e.clone()),
            RuntimeAction::SetFlag(f) => {
                let mut k: Vec<MapKey> = Vec::new();
                let mut i: usize = 0;
                while i < f.key.len()
                    invariant
                        i <= f.key.len(),
                        k@.len() == i,
                        forall|j: int| 0 <= j < i ==> (#[trigger] k@[j])@ == f.key@[j]@,
                    decreases f.key.len() - i,
                {
                    k.push(f.key[i].clone());
                    i = i + 1;
                }
                assert(k@.map_values(|x: MapKey| x@) =~= f.key@.map_values(|x: MapKey| x@));
                RuntimeAction::SetFlag(
                    SetFlagAction { mode: f.mode, key: k, value: f.value.clone() },
                )
            },
        }
    }
}

// ---------------------------------------------------------------------------
// Network
// ---------------------------------------------------------------------------

impl NetworkRequest {
    /// A GET request.
    pub fn new_get(server: Text, route: Text) -> (r: Self)
        ensures
            r.server == server,
            r.route == route,
            r.specific is Get,
    {
        NetworkRequest { server, route, specific: InnerNetworkRequest::Get }
    }

    /// A POST request with an optional JSON body.
    pub fn new_post(server: Text, route: Text, json: Option<Vec<(Text, RuntimeValue)>>) -> (r:
        Self)
        ensures
            r.server == server,
            r.route == route,
            r.specific == (InnerNetworkRequest::Post { json }),
    {
        NetworkRequest { server, route, specific: InnerNetworkRequest::Post { json } }
    }

    /// The kind of the request.
    pub fn into_specific(self) -> (r: InnerNetworkRequest)
        ensures
            r == self.specific,
    {
        self.specific
    }
}

impl NetworkResponse {
    /// A response with the given status.
    pub fn new(status: u16) -> (r: Self)
        ensures
            r.status == status,
    {
        NetworkResponse { status }
    }

    /// The HTTP status.
    pub fn status(&self) -> (r: u16)
        ensures
            r == self.status,
    {
        self.status
    }

    /// The response as a mapping: its status under the key "status".
    pub fn to_mapping(&self) -> (r: RealMapping)
        ensures
            r@ == ValueV::Mapping(
                seq![(KeyV::Str(seq!['s', 't', 'a', 't', 'u', 's']), ValueV::Prim(PrimV::Num(NumV::Int(self.status as i64))))],
                None,
            ),
    {
        let mut m: Vec<(MapKey, RuntimeValue)> = Vec::new();
        let mut key = String::new();
        crate::spec::text::string_push(&mut key, 's');
        crate::spec::text::string_push(&mut key, 't');
        crate::spec::text::string_push(&mut key, 'a');
        crate::spec::text::string_push(&mut key, 't');
        crate::spec::text::string_push(&mut key, 'u');
        crate::spec::text::string_push(&mut key, 's');
        assert(key@ =~= seq!['s', 't', 'a', 't', 'u', 's']);
        let v = RuntimeValue::Prim(PrimitiveValue::Number(Numeric::Int(self.status as i64)));
        assert(v@ == ValueV::Prim(PrimV::Num(NumV::Int(self.status as i64))));
        m.push((MapKey::Str(Text(key)), v));
        let r = RealMapping { mapping: m, default: None };
        assert(crate::spec::values::entries_view(r.mapping@) =~= seq![(KeyV::Str(seq!['s', 't', 'a', 't', 'u', 's']), ValueV::Prim(PrimV::Num(NumV::Int(self.status as i64))))]);
        r
    }
}

impl CompiledRegex {
    /// The pattern that is to be compiled.
    pub fn requested_pattern(&self) -> (r: &Text)
        ensures
            r == &self.0,
    {
        &self.0
    }
}

} // verus!

verus! {

proof fn lemma_clauses_item_smaller(v: Vec<MaybeEval<RuntimeCriterion>>, i: int)
    requires
        0 <= i < v@.len(),
    ensures
        decreases_to!(v => v@[i]),
{
    assert(decreases_to!(v => v@));
}

/// A copy of a list of possibly evaluated criteria.
pub fn clone_maybe_crits(v: &Vec<MaybeEval<RuntimeCriterion>>) -> (r: Vec<MaybeEval<RuntimeCriterion>>)
    ensures
        maybe_crits_view(r) == maybe_crits_view(*v),
    decreases *v, 3int,
{
    let mut out: Vec<MaybeEval<RuntimeCriterion>> = Vec::new();
    let mut i: usize = 0;
    while i < v.len()
        invariant
            i <= v.len(),
            out@.len() == i,
            forall|j: int| 0 <= j < i ==> maybe_crit_view(#[trigger] out@[j]) == maybe_crit_view(v@[j]),
        decreases v.len() - i,
    {
        proof {
            lemma_clauses_item_smaller(*v, i as int);
        }
        out.push(clone_maybe_crit(&v[i]));
        i = i + 1;
    }
    assert(maybe_crits_view(out) =~= maybe_crits_view(*v));
    out
}

/// A copy of a possibly evaluated criterion.
pub fn clone_maybe_crit(m: &MaybeEval<RuntimeCriterion>) -> (r: MaybeEval<RuntimeCriterion>)
    ensures
        maybe_crit_view(r) == maybe_crit_view(*m),
    decreases *m, 2int,
{
    match m {
        MaybeEval::Unevaluated => MaybeEval::Unevaluated,
        MaybeEval::Evaluated(c) => MaybeEval::Evaluated(clone_crit(c)),
    }
}

/// A copy of an evaluated criterion.
pub fn clone_crit(c: &RuntimeCriterion) -> (r: RuntimeCriterion)
    ensures
        r@ == c@,
    decreases *c, 1int,
{
    let f = match &c.fulfilled {
        Ok(()) => Ok(()),
        Err(None) => Err(None),
        Err(Some(t)) => Err(Some(t.clone())),
    };
    RuntimeCriterion { fulfilled: f, inner: clone_inner(&c.inner) }
}

fn clone_prims(v: &Vec<PrimitiveValue>) -> (r: Vec<PrimitiveValue>)
    ensures
        r@.map_values(|p: PrimitiveValue| p@) == v@.map_values(|p: PrimitiveValue| p@),
{
    let mut out: Vec<PrimitiveValue> = Vec::new();
    let mut i: usize = 0;
    while i < v.len()
        invariant
            i <= v.len(),
            out@.len() == i,
            forall|j: int| 0 <= j < i ==> (#[trigger] out@[j])@ == v@[j]@,
        decreases v.len() - i,
    {
        out.push(v[i].clone());
        i = i + 1;
    }
    assert(out@.map_values(|p: PrimitiveValue| p@) =~= v@.map_values(|p: PrimitiveValue| p@));
    out
}

/// A copy of a list of numbers.
pub fn clone_numbers(v: &Vec<Numeric>) -> (r: Vec<Numeric>)
    ensures
        r@.map_values(|p: Numeric| p@) == v@.map_values(|p: Numeric| p@),
{
    let mut out: Vec<Numeric> = Vec::new();
    let mut i: usize = 0;
    while i < v.len()
        invariant
            i <= v.len(),
            out@.len() == i,
            forall|j: int| 0 <= j < i ==> (#[trigger] out@[j])@ == v@[j]@,
        decreases v.len() - i,
    {
        out.push(v[i].clone());
        i = i + 1;
    }
    assert(out@.map_values(|p: Numeric| p@) =~= v@.map_values(|p: Numeric| p@));
    out
}

/// A copy of how a criterion was decided.
pub fn clone_inner(i: &InnerRuntimeCriterion) -> (r: InnerRuntimeCriterion)
    ensures
        inner_view(r) == inner_view(*i),
    decreases *i, 0int,
{
    match i {
        InnerRuntimeCriterion::Negated { clause } => InnerRuntimeCriterion::Negated {
            clause: Box::new(clone_crit(clause)),
        },
        InnerRuntimeCriterion::AnyOf { clauses } => InnerRuntimeCriterion::AnyOf {
            clauses: clone_maybe_crits(clauses),
        },
        InnerRuntimeCriterion::AllOf { clauses } => InnerRuntimeCriterion::AllOf {
            clauses: clone_maybe_crits(clauses),
        },
        InnerRuntimeCriterion::ContainOnlynum { sub, sup, found } =>
            InnerRuntimeCriterion::ContainOnlynum {
            sub: sub.clone(),
            sup: sup.clone(),
            found: clone_numbers(found),
        },
        InnerRuntimeCriterion::ContainNum { sub, sup, found } => InnerRuntimeCriterion::ContainNum {
            sub: sub.clone(),
            sup: sup.clone(),
            found: clone_numbers(found),
        },
        InnerRuntimeCriterion::ContainText { sub, sup } => InnerRuntimeCriterion::ContainText {
            sub: sub.clone(),
            sup: sup.clone(),
        },
        InnerRuntimeCriterion::ContainWithGaps { parts, unevaluated_parts, sup } =>
            InnerRuntimeCriterion::ContainWithGaps {
            parts: clone_prims(parts),
            unevaluated_parts: *unevaluated_parts,
            sup: sup.clone(),
        },
        InnerRuntimeCriterion::MatchesRegex { pattern, sup } => InnerRuntimeCriterion::MatchesRegex {
            pattern: pattern.clone(),
            sup: clone_value(sup),
        },
        InnerRuntimeCriterion::GreaterThen { left, right } => InnerRuntimeCriterion::GreaterThen {
            left: left.clone(),
            right: right.clone(),
        },
        InnerRuntimeCriterion::LowerThen { left, right } => InnerRuntimeCriterion::LowerThen {
            left: left.clone(),
            right: right.clone(),
        },
        InnerRuntimeCriterion::GreaterEqual { left, right } => InnerRuntimeCriterion::GreaterEqual {
            left: left.clone(),
            right: right.clone(),
        },
        InnerRuntimeCriterion::LowerEqual { left, right } => InnerRuntimeCriterion::LowerEqual {
            left: left.clone(),
            right: right.clone(),
        },
        InnerRuntimeCriterion::NotEqual { left, right } => InnerRuntimeCriterion::NotEqual {
            left: left.clone(),
            right: right.clone(),
        },
        InnerRuntimeCriterion::Equal { left, right } => InnerRuntimeCriterion::Equal {
            left: left.clone(),
            right: right.clone(),
        },
        InnerRuntimeCriterion::IfThenElse { if_, selected_branch, other_branch } =>
            InnerRuntimeCriterion::IfThenElse {
            if_: Box::new(clone_crit(if_)),
            selected_branch: Box::new(clone_crit(selected_branch)),
            other_branch: Box::new(clone_maybe_crit(other_branch)),
        },
        InnerRuntimeCriterion::SpecialCrit { variant } => InnerRuntimeCriterion::SpecialCrit {
            variant: *variant,
        },
    }
}

/// A copy of anything an entity evaluates to.
pub fn clone_any(a: &RuntimeAny) -> (r: RuntimeAny)
    ensures
        r@ == a@,
{
    match a {
        RuntimeAny::Criterion(c) => RuntimeAny::Criterion(clone_crit(c)),
        RuntimeAny::Action(x) => RuntimeAny::Action(x.clone()),
        RuntimeAny::Value(v) => RuntimeAny::Value(clone_value(v)),
        RuntimeAny::Catchable(e) => RuntimeAny::Catchable(*e),
    }
}

} // verus!

//! Evaluation of one entity.
//!
//! Evaluating an entity may need things it does not have yet: the value of
//! another entity, data read through a selector, the response to a network
//! request, or the outcome of an operation on numbers. The evaluation then
//! stops with `Flow::Need` and the question. Once the answer is there, the
//! entity is evaluated again from the start: the values of other entities
//! are looked up in `EvalContext::values`, and the answer to the one outside
//! question that an entity may ask is `EvalContext::answer`. Since the
//! evaluation is deterministic, this replays the earlier run up to the point
//! where it stopped and then goes on.
use vstd::prelude::*;

use std::collections::BTreeMap;

use crate::catchable::cerr;
use crate::features::Features;
use crate::spec::entities::{
    ActionEntity, Coremapping, CriterionEntity, Entity, EntityId, NetworkMethod, SetFlagMode,
    ValueEntity, ValueReference, Selector, action_features, coremapping_features,
};
use crate::features::RequiredFeatures;
use crate::spec::numbers::{CandidateV, NumberCandidate};
use crate::spec::runtime::{
    ActV, AnyV, CritV, InnerV, MaybeV, FatalError, InnerRuntimeCriterion, MaybeEval,
    NetworkRequest, RuntimeAction, RuntimeAny, RuntimeCriterion, inner_view,
    maybe_crit_view, maybe_crits_view, InnerNetworkRequest, clone_numbers,
    SetFlagAction, SendMsgAction, EndThisTestAction,
};
use crate::spec::regex_support::{
    CompiledPattern, compile_regex, regex_capture_index, regex_capture_name, regex_group_by_index,
    regex_group_by_name, regex_is_match, regex_matches, regex_valid,
};
use crate::spec::text::{
    Text, chars_of, find_from, first_occurrence_from, occurs_at, parse_i64, parse_i64_spec, seq_contains,
    text_contains, unicode_upper, unicode_lower, spec_trim, spec_trim_end, spec_trim_start,
};
use crate::spec::intpow::{checked_pow_i64, fits_i64, int_pow};
use crate::spec::numbers::{find_numbers, find_numbers_spec};
use crate::spec::values::{
    KeyOrder, KeyV, MapKey, NumV, Numeric, PrimV, PrimitiveValue, RuntimeValue, ValueV, chars_lt,
    MappingOrArray, clone_value, compare_text, key_prim, lemma_comp_view, mapping_get,
    num_text, prim_text, values_of,
};

verus! {

// ---------------------------------------------------------------------------
// Questions and answers
// ---------------------------------------------------------------------------

/// A binary operation on numbers.
#[derive(Debug, PartialEq, Eq, Structural, Clone, Copy)]
pub enum NumericOp {
    Add,
    Sub,
    Mul,
    Truediv,
    Floordiv,
    Mod,
    Pow,
}

/// A unary operation on numbers.
#[derive(Debug, PartialEq, Eq, Structural, Clone, Copy)]
pub enum UnaryOp {
    Abs,
    Floor,
    Ceil,
    Round,
}

/// A comparison of two primitive values.
#[derive(Debug, PartialEq, Eq, Structural, Clone, Copy)]
pub enum CompareOp {
    Equal,
    NotEqual,
    LowerThen,
    LowerEqual,
    GreaterThen,
    GreaterEqual,
}

/// An operation whose outcome rests on the arithmetic of numbers, which is
/// done outside the evaluation.
#[derive(Debug)]
pub enum NumericTask {
    /// Answered by `Answer::Number`.
    Binary { op: NumericOp, left: Numeric, right: Numeric },
    /// Answered by `Answer::Number`.
    Unary { op: UnaryOp, value: Numeric },
    /// Answered by `Answer::Decision`.
    Compare { op: CompareOp, left: PrimitiveValue, right: PrimitiveValue },
    /// Which of the candidates are numbers, and whether `sub` is among them;
    /// answered by `Answer::Found`.
    ContainsNumber { sub: Numeric, candidates: Vec<NumberCandidate> },
}

/// What an evaluation needs before it can go on.
#[derive(Debug)]
pub enum Query {
    /// The value of another entity.
    Entity(u64),
    /// Data read through a selector; answered by `Answer::Selected`.
    Selector(Selector),
    /// A network request; answered by `Answer::Network`.
    Network(NetworkRequest),
    /// An operation on numbers.
    Numeric(NumericTask),
}

/// The answer to a question other than the value of an entity.
#[derive(Debug)]
pub enum Answer {
    Selected(RuntimeAny),
    Network(Result<crate::spec::runtime::NetworkResponse, cerr>),
    Number(Numeric),
    Decision(bool),
    Found(Vec<Numeric>, bool),
}

/// How an evaluation ended.
#[derive(Debug)]
pub enum Flow<R> {
    Done(R),
    Catch(cerr),
    Need(Query),
    Fatal(FatalError),
}

/// What the evaluation of an entity reads: the values of the entities known
/// so far and the answer to its outside question, once it was given.
pub struct EvalContext<'a> {
    pub values: &'a BTreeMap<u64, RuntimeAny>,
    pub answer: Option<&'a Answer>,
}

// ---------------------------------------------------------------------------
// Models
// ---------------------------------------------------------------------------

pub enum TaskV {
    Binary(NumericOp, NumV, NumV),
    Unary(UnaryOp, NumV),
    Compare(CompareOp, PrimV, PrimV),
    ContainsNumber(NumV, Seq<CandidateV>),
}

pub enum NetV {
    Get,
    Post(Option<Seq<(Seq<char>, ValueV)>>),
}

pub enum QueryV {
    Entity(u64),
    Selector(Coremapping, Option<Seq<KeyV>>),
    Network(Seq<char>, Seq<char>, NetV),
    Numeric(TaskV),
}

pub enum AnswerV {
    Selected(AnyV),
    Network(Result<u16, cerr>),
    Number(NumV),
    Decision(bool),
    Found(Seq<NumV>, bool),
}

pub enum FlowV<T> {
    Done(T),
    Catch(cerr),
    Need(QueryV),
    Fatal,
}

pub struct CtxV {
    pub values: Map<u64, AnyV>,
    pub answer: Option<AnswerV>,
}

impl View for NumericTask {
    type V = TaskV;

    open spec fn view(&self) -> TaskV {
        match self {
            NumericTask::Binary { op, left, right } => TaskV::Binary(*op, left@, right@),
            NumericTask::Unary { op, value } => TaskV::Unary(*op, value@),
            NumericTask::Compare { op, left, right } => TaskV::Compare(*op, left@, right@),
            NumericTask::ContainsNumber { sub, candidates } => TaskV::ContainsNumber(
                sub@,
                candidates@.map_values(|c: NumberCandidate| c@),
            ),
        }
    }
}

/// The model of the body of a request.
pub open spec fn json_view(j: Vec<(Text, RuntimeValue)>) -> Seq<(Seq<char>, ValueV)> {
    j@.map_values(|p: (Text, RuntimeValue)| (p.0@, p.1@))
}

impl View for NetworkRequest {
    type V = (Seq<char>, Seq<char>, NetV);

    open spec fn view(&self) -> (Seq<char>, Seq<char>, NetV) {
        (
            self.server@,
            self.route@,
            match self.specific {
                InnerNetworkRequest::Get => NetV::Get,
                InnerNetworkRequest::Post { json } => NetV::Post(
                    match json {
                        Some(j) => Some(json_view(j)),
                        None => None,
                    },
                ),
            },
        )
    }
}

impl View for Query {
    type V = QueryV;

    open spec fn view(&self) -> QueryV {
        match self {
            Query::Entity(id) => QueryV::Entity(*id),
            Query::Selector(Selector::Coremap(m)) => QueryV::Selector(*m, None),
            Query::Selector(Selector::CoremapItem { mapping, key }) => QueryV::Selector(
                *mapping,
                Some(key@.map_values(|k: MapKey| k@)),
            ),
            Query::Network(r) => QueryV::Network(r@.0, r@.1, r@.2),
            Query::Numeric(t) => QueryV::Numeric(t@),
        }
    }
}

impl View for Answer {
    type V = AnswerV;

    open spec fn view(&self) -> AnswerV {
        match self {
            Answer::Selected(a) => AnswerV::Selected(a@),
            Answer::Network(Ok(r)) => AnswerV::Network(Ok(r.status)),
            Answer::Network(Err(e)) => AnswerV::Network(Err(*e)),
            Answer::Number(n) => AnswerV::Number(n@),
            Answer::Decision(b) => AnswerV::Decision(*b),
            Answer::Found(f, b) => AnswerV::Found(f@.map_values(|n: Numeric| n@), *b),
        }
    }
}

impl<'a> View for EvalContext<'a> {
    type V = CtxV;

    open spec fn view(&self) -> CtxV {
        CtxV {
            values: self.values@.map_values(|a: RuntimeAny| a@),
            answer: match self.answer {
                Some(a) => Some(a@),
                None => None,
            },
        }
    }
}

/// The model of an evaluation outcome, its result seen through `f`.
pub open spec fn fmap<R, T>(r: Flow<R>, f: spec_fn(R) -> T) -> FlowV<T> {
    match r {
        Flow::Done(x) => FlowV::Done(f(x)),
        Flow::Catch(e) => FlowV::Catch(e),
        Flow::Need(q) => FlowV::Need(q@),
        Flow::Fatal(_) => FlowV::Fatal,
    }
}

/// The same outcome for another type of result; only for outcomes that are
/// not `Done`.
pub open spec fn relabel<A, B>(f: FlowV<A>) -> FlowV<B> {
    match f {
        FlowV::Done(_) => FlowV::Fatal,
        FlowV::Catch(e) => FlowV::Catch(e),
        FlowV::Need(q) => FlowV::Need(q),
        FlowV::Fatal => FlowV::Fatal,
    }
}

// ---------------------------------------------------------------------------
// Reading values
// ---------------------------------------------------------------------------

/// The value of an entity, or the question for it.
pub open spec fn sp_entity(cx: CtxV, id: u64) -> FlowV<AnyV> {
    if cx.values.contains_key(id) {
        FlowV::Done(cx.values[id])
    } else {
        FlowV::Need(QueryV::Entity(id))
    }
}

/// A value read as a criterion.
pub open spec fn cast_crit(a: AnyV) -> Result<CritV, cerr> {
    match a {
        AnyV::Criterion(c) => Ok(c),
        AnyV::Catchable(e) => Err(e),
        _ => Err(cerr::typing_notCriterion()),
    }
}

/// A value read as an action.
pub open spec fn cast_action(a: AnyV) -> Result<ActV, cerr> {
    match a {
        AnyV::Action(x) => Ok(x),
        AnyV::Catchable(e) => Err(e),
        _ => Err(cerr::typing_notAction()),
    }
}

/// A value read as a runtime value.
pub open spec fn cast_value(a: AnyV) -> Result<ValueV, cerr> {
    match a {
        AnyV::Value(x) => Ok(x),
        AnyV::Catchable(e) => Err(e),
        _ => Err(cerr::typing_notValue()),
    }
}

/// A value read as a primitive.
pub open spec fn cast_prim(a: AnyV) -> Result<PrimV, cerr> {
    match a {
        AnyV::Value(ValueV::Prim(p)) => Ok(p),
        AnyV::Catchable(e) => Err(e),
        _ => Err(cerr::typing_notPrimitive()),
    }
}

/// A value read as a number.
pub open spec fn cast_num(a: AnyV) -> Result<NumV, cerr> {
    match a {
        AnyV::Value(ValueV::Prim(PrimV::Num(n))) => Ok(n),
        AnyV::Catchable(e) => Err(e),
        _ => Err(cerr::typing_notNumeric()),
    }
}

/// A value read as a text; anything else, an error too, is `typing_notText`.
pub open spec fn cast_text(a: AnyV) -> Result<Seq<char>, cerr> {
    match a {
        AnyV::Value(ValueV::Prim(PrimV::Str(t))) => Ok(t),
        _ => Err(cerr::typing_notText()),
    }
}

/// A value read as a mapping key: a text or an integer; anything else, an
/// error too, is `typing_notMapkey`.
pub open spec fn cast_key(a: AnyV) -> Result<KeyV, cerr> {
    match a {
        AnyV::Value(ValueV::Prim(PrimV::Str(t))) => Ok(KeyV::Str(t)),
        AnyV::Value(ValueV::Prim(PrimV::Num(NumV::Int(i)))) => Ok(KeyV::Int(i)),
        _ => Err(cerr::typing_notMapkey()),
    }
}

/// A value read as an array.
pub open spec fn cast_array(a: AnyV) -> Result<Seq<ValueV>, cerr> {
    match a {
        AnyV::Value(ValueV::Array(s)) => Ok(s),
        AnyV::Catchable(e) => Err(e),
        _ => Err(cerr::typing_notArray()),
    }
}

/// A value read as a mapping.
pub open spec fn cast_mapping(a: AnyV) -> Result<ValueV, cerr> {
    match a {
        AnyV::Value(ValueV::Mapping(es, d)) => Ok(ValueV::Mapping(es, d)),
        AnyV::Catchable(e) => Err(e),
        _ => Err(cerr::typing_notMapping()),
    }
}

/// Reading an entity through a cast.
pub open spec fn sp_id<T>(cx: CtxV, id: u64, cast: spec_fn(AnyV) -> Result<T, cerr>) -> FlowV<T> {
    match sp_entity(cx, id) {
        FlowV::Done(a) => match cast(a) {
            Ok(t) => FlowV::Done(t),
            Err(e) => FlowV::Catch(e),
        },
        FlowV::Need(q) => FlowV::Need(q),
        _ => FlowV::Fatal,
    }
}

/// Reading a value reference through a cast: a literal text is a text
/// value.
pub open spec fn sp_ref<T>(cx: CtxV, r: ValueReference, cast: spec_fn(AnyV) -> Result<T, cerr>) -> FlowV<T> {
    match r {
        ValueReference::EntityId(id) => sp_id(cx, id.0, cast),
        ValueReference::LitString(t) => match cast(AnyV::Value(ValueV::Prim(PrimV::Str(t@)))) {
            Ok(x) => FlowV::Done(x),
            Err(e) => FlowV::Catch(e),
        },
    }
}

/// Reading an optional explanation.
pub open spec fn sp_fexp(cx: CtxV, f: Option<ValueReference>) -> FlowV<Option<Seq<char>>> {
    match f {
        None => FlowV::Done(None),
        Some(r) => match sp_ref(cx, r, |a: AnyV| cast_text(a)) {
            FlowV::Done(t) => FlowV::Done(Some(t)),
            FlowV::Catch(e) => FlowV::Catch(e),
            FlowV::Need(q) => FlowV::Need(q),
            FlowV::Fatal => FlowV::Fatal,
        },
    }
}

/// The value of an entity, or the question for it.
fn get_entity<'a>(cx: &EvalContext<'a>, id: u64) -> (r: Result<&'a RuntimeAny, Query>)
    ensures
        match r {
            Ok(a) => sp_entity(cx@, id) == FlowV::Done(a@),
            Err(q) => sp_entity(cx@, id) == FlowV::<AnyV>::Need(q@),
        },
{
    match cx.values.get(&id) {
        Some(a) => {
            assert(cx@.values.contains_key(id));
            Ok(a)
        },
        None => Err(Query::Entity(id)),
    }
}

} // verus!

verus! {

/// Reading something of a given kind out of what an entity evaluated to.
pub trait SpecializeFrom: Sized {
    type M;

    /// The model of a result.
    spec fn model(&self) -> Self::M;

    /// What reading `a` gives.
    spec fn spec_cast(a: AnyV) -> Result<Self::M, cerr>;

    fn specialize_from(any: &RuntimeAny) -> (r: Result<Self, cerr>)
        ensures
            match r {
                Ok(x) => Self::spec_cast(any@) == Ok::<Self::M, cerr>(x.model()),
                Err(e) => Self::spec_cast(any@) == Err::<Self::M, cerr>(e),
            },
    ;
}

impl SpecializeFrom for RuntimeCriterion {
    type M = CritV;

    open spec fn model(&self) -> CritV {
        self@
    }

    open spec fn spec_cast(a: AnyV) -> Result<CritV, cerr> {
        cast_crit(a)
    }

    fn specialize_from(any: &RuntimeAny) -> (r: Result<Self, cerr>) {
        match any {
            RuntimeAny::Criterion(c) => Ok(crate::spec::runtime::clone_crit(c)),
            RuntimeAny::Catchable(e) => Err(*e),
            _ => Err(cerr::typing_notCriterion()),
        }
    }
}

impl SpecializeFrom for RuntimeAction {
    type M = ActV;

    open spec fn model(&self) -> ActV {
        self@
    }

    open spec fn spec_cast(a: AnyV) -> Result<ActV, cerr> {
        cast_action(a)
    }

    fn specialize_from(any: &RuntimeAny) -> (r: Result<Self, cerr>) {
        match any {
            RuntimeAny::Action(x) => Ok(x.clone()),
            RuntimeAny::Catchable(e) => Err(*e),
            _ => Err(cerr::typing_notAction()),
        }
    }
}

impl SpecializeFrom for RuntimeValue {
    type M = ValueV;

    open spec fn model(&self) -> ValueV {
        self@
    }

    open spec fn spec_cast(a: AnyV) -> Result<ValueV, cerr> {
        cast_value(a)
    }

    fn specialize_from(any: &RuntimeAny) -> (r: Result<Self, cerr>) {
        match any {
            RuntimeAny::Value(x) => Ok(clone_value(x)),
            RuntimeAny::Catchable(e) => Err(*e),
            _ => Err(cerr::typing_notValue()),
        }
    }
}

impl SpecializeFrom for PrimitiveValue {
    type M = PrimV;

    open spec fn model(&self) -> PrimV {
        self@
    }

    open spec fn spec_cast(a: AnyV) -> Result<PrimV, cerr> {
        cast_prim(a)
    }

    fn specialize_from(any: &RuntimeAny) -> (r: Result<Self, cerr>) {
        match any {
            RuntimeAny::Value(RuntimeValue::Prim(p)) => Ok(p.clone()),
            RuntimeAny::Catchable(e) => Err(*e),
            _ => Err(cerr::typing_notPrimitive()),
        }
    }
}

impl SpecializeFrom for Numeric {
    type M = NumV;

    open spec fn model(&self) -> NumV {
        self@
    }

    open spec fn spec_cast(a: AnyV) -> Result<NumV, cerr> {
        cast_num(a)
    }

    fn specialize_from(any: &RuntimeAny) -> (r: Result<Self, cerr>) {
        match any {
            RuntimeAny::Value(RuntimeValue::Prim(PrimitiveValue::Number(n))) => Ok(n.clone()),
            RuntimeAny::Catchable(e) => Err(*e),
            _ => Err(cerr::typing_notNumeric()),
        }
    }
}

impl SpecializeFrom for Text {
    type M = Seq<char>;

    open spec fn model(&self) -> Seq<char> {
        self@
    }

    open spec fn spec_cast(a: AnyV) -> Result<Seq<char>, cerr> {
        cast_text(a)
    }

    fn specialize_from(any: &RuntimeAny) -> (r: Result<Self, cerr>) {
        match any {
            RuntimeAny::Value(RuntimeValue::Prim(PrimitiveValue::Str(t))) => Ok(t.clone()),
            _ => Err(cerr::typing_notText()),
        }
    }
}

impl SpecializeFrom for MapKey {
    type M = KeyV;

    open spec fn model(&self) -> KeyV {
        self@
    }

    open spec fn spec_cast(a: AnyV) -> Result<KeyV, cerr> {
        cast_key(a)
    }

    fn specialize_from(any: &RuntimeAny) -> (r: Result<Self, cerr>) {
        match any {
            RuntimeAny::Value(RuntimeValue::Prim(PrimitiveValue::Str(t))) => Ok(MapKey::Str(t.clone())),
            RuntimeAny::Value(RuntimeValue::Prim(PrimitiveValue::Number(Numeric::Int(i)))) => Ok(
                MapKey::Int(*i),
            ),
            _ => Err(cerr::typing_notMapkey()),
        }
    }
}

impl SpecializeFrom for RuntimeAny {
    type M = AnyV;

    open spec fn model(&self) -> AnyV {
        self@
    }

    open spec fn spec_cast(a: AnyV) -> Result<AnyV, cerr> {
        Ok(a)
    }

    fn specialize_from(any: &RuntimeAny) -> (r: Result<Self, cerr>) {
        Ok(crate::spec::runtime::clone_any(any))
    }
}

/// Reads an entity as `T`.
pub fn q_id<T: SpecializeFrom>(cx: &EvalContext, id: u64) -> (r: Flow<T>)
    ensures
        fmap(r, |x: T| x.model()) == sp_id(cx@, id, |a: AnyV| T::spec_cast(a)),
        !(r is Fatal),
{
    match get_entity(cx, id) {
        Ok(a) => match T::specialize_from(a) {
            Ok(x) => Flow::Done(x),
            Err(e) => Flow::Catch(e),
        },
        Err(q) => Flow::Need(q),
    }
}

/// Reads a value reference as `T`.
pub fn q_ref<T: SpecializeFrom>(cx: &EvalContext, r: &ValueReference) -> (res: Flow<T>)
    ensures
        fmap(res, |x: T| x.model()) == sp_ref(cx@, *r, |a: AnyV| T::spec_cast(a)),
        !(res is Fatal),
{
    match r {
        ValueReference::EntityId(id) => q_id(cx, id.0),
        ValueReference::LitString(t) => {
            let a = RuntimeAny::Value(RuntimeValue::Prim(PrimitiveValue::Str(t.clone())));
            assert(a@ == AnyV::Value(ValueV::Prim(PrimV::Str(t@))));
            match T::specialize_from(&a) {
                Ok(x) => Flow::Done(x),
                Err(e) => Flow::Catch(e),
            }
        },
    }
}

/// Reads an optional explanation.
pub fn q_fexp(cx: &EvalContext, f: &Option<ValueReference>) -> (r: Flow<Option<Text>>)
    ensures
        fmap(r, |x: Option<Text>| match x {
            Some(t) => Some(t@),
            None => None,
        }) == sp_fexp(cx@, *f),
        !(r is Fatal),
{
    match f {
        None => Flow::Done(None),
        Some(vr) => match q_ref::<Text>(cx, vr) {
            Flow::Done(t) => Flow::Done(Some(t)),
            Flow::Catch(e) => Flow::Catch(e),
            Flow::Need(q) => Flow::Need(q),
            Flow::Fatal(e) => Flow::Fatal(e),
        },
    }
}

} // verus!

verus! {

// ---------------------------------------------------------------------------
// Criteria
// ---------------------------------------------------------------------------

/// The model of an optional explanation.
pub open spec fn opt_text(x: Option<Text>) -> Option<Seq<char>> {
    match x {
        Some(t) => Some(t@),
        None => None,
    }
}

/// A criterion result: fulfilled, or not with the explanation.
pub open spec fn crit(ok: bool, expl: Option<Seq<char>>, inner: InnerV) -> CritV {
    CritV { fulfilled: if ok { Ok(()) } else { Err(expl) }, inner }
}

/// The explanation of a failed criterion.
pub open spec fn explanation_of(c: CritV) -> Option<Seq<char>> {
    match c.fulfilled {
        Err(Some(t)) => Some(t),
        _ => None,
    }
}

/// A result that is fulfilled when `ok`, else not, with the explanation that
/// `fexp` gives (`set_failure_explaination_if_failed`).
pub open spec fn sp_finish(cx: CtxV, ok: bool, inner: InnerV, fexp: Option<ValueReference>) -> FlowV<CritV> {
    if ok {
        FlowV::Done(crit(true, None, inner))
    } else {
        match sp_fexp(cx, fexp) {
            FlowV::Done(x) => FlowV::Done(crit(false, x, inner)),
            o => relabel(o),
        }
    }
}

/// `n` unevaluated entries.
pub open spec fn unevaluated(n: int) -> Seq<MaybeV<CritV>> {
    Seq::new(n as nat, |j: int| MaybeV::Unevaluated)
}

/// Any of the clauses, from the `i`-th on, where `acc` holds the earlier
/// ones: the first fulfilled clause decides (the later ones stay
/// unevaluated); if none is, the criterion fails with the explanation.
pub open spec fn sp_any_of(cx: CtxV, ids: Seq<u64>, i: int, acc: Seq<MaybeV<CritV>>, fexp: Option<ValueReference>) -> FlowV<CritV>
    decreases ids.len() - i,
{
    if i >= ids.len() || i < 0 {
        sp_finish(cx, false, InnerV::AnyOf(acc), fexp)
    } else {
        match sp_id(cx, ids[i], |a: AnyV| cast_crit(a)) {
            FlowV::Done(c) => if c.fulfilled is Ok {
                FlowV::Done(crit(true, None, InnerV::AnyOf(acc.push(MaybeV::Evaluated(c)) + unevaluated(ids.len() - i - 1))))
            } else {
                sp_any_of(cx, ids, i + 1, acc.push(MaybeV::Evaluated(c)), fexp)
            },
            o => relabel(o),
        }
    }
}

/// All of the clauses, from the `i`-th on: the first unfulfilled clause
/// decides (the later ones stay unevaluated) and the criterion fails with the
/// explanation; if all are fulfilled, so is the criterion.
pub open spec fn sp_all_of(cx: CtxV, ids: Seq<u64>, i: int, acc: Seq<MaybeV<CritV>>, fexp: Option<ValueReference>) -> FlowV<CritV>
    decreases ids.len() - i,
{
    if i >= ids.len() || i < 0 {
        FlowV::Done(crit(true, None, InnerV::AllOf(acc)))
    } else {
        match sp_id(cx, ids[i], |a: AnyV| cast_crit(a)) {
            FlowV::Done(c) => if c.fulfilled is Err {
                sp_finish(cx, false, InnerV::AllOf(acc.push(MaybeV::Evaluated(c)) + unevaluated(ids.len() - i - 1)), fexp)
            } else {
                sp_all_of(cx, ids, i + 1, acc.push(MaybeV::Evaluated(c)), fexp)
            },
            o => relabel(o),
        }
    }
}

/// The ids of a list of criteria.
pub open spec fn ids_of(v: Seq<EntityId<CriterionEntity>>) -> Seq<u64> {
    v.map_values(|e: EntityId<CriterionEntity>| e.0)
}

/// The negation of a clause: fulfilled when the clause is not; on failure
/// the explanation is that of `fexp`, else that of the clause.
pub open spec fn sp_negated(cx: CtxV, clause: u64, fexp: Option<ValueReference>) -> FlowV<CritV> {
    match sp_id(cx, clause, |a: AnyV| cast_crit(a)) {
        FlowV::Done(c) => {
            let ok = c.fulfilled is Err;
            match sp_fexp(cx, if ok { None } else { fexp }) {
                FlowV::Done(outer) => FlowV::Done(crit(ok, match outer {
                    Some(t) => Some(t),
                    None => explanation_of(c),
                }, InnerV::Negated(Box::new(c)))),
                o => relabel(o),
            }
        },
        o => relabel(o),
    }
}

/// A conditional criterion: the branch that the condition selects decides;
/// on failure the explanation is that of `fexp`, else that of the branch.
pub open spec fn sp_if_then_else(cx: CtxV, if_: u64, then_: u64, else_: u64, fexp: Option<ValueReference>) -> FlowV<CritV> {
    match sp_id(cx, if_, |a: AnyV| cast_crit(a)) {
        FlowV::Done(c) => match sp_id(cx, if c.fulfilled is Ok { then_ } else { else_ }, |a: AnyV| cast_crit(a)) {
            FlowV::Done(s) => {
                let ok = s.fulfilled is Ok;
                match sp_fexp(cx, if ok { None } else { fexp }) {
                    FlowV::Done(outer) => FlowV::Done(crit(ok, match outer {
                        Some(t) => Some(t),
                        None => explanation_of(s),
                    }, InnerV::IfThenElse(Box::new(c), Box::new(s), Box::new(MaybeV::Unevaluated)))),
                    o => relabel(o),
                }
            },
            o => relabel(o),
        },
        o => relabel(o),
    }
}

fn build_crit(ok: bool, expl: Option<Text>, inner: InnerRuntimeCriterion) -> (r: RuntimeCriterion)
    ensures
        r@ == crit(ok, opt_text(expl), inner_view(inner)),
{
    let r = RuntimeCriterion { fulfilled: if ok { Ok(()) } else { Err(expl) }, inner };
    r
}

/// Finishes a criterion: fulfilled when `ok`, else not, with the explanation
/// of `fexp`.
fn finish(cx: &EvalContext, ok: bool, inner: InnerRuntimeCriterion, fexp: &Option<ValueReference>) -> (r: Flow<RuntimeCriterion>)
    ensures
        fmap(r, |c: RuntimeCriterion| c@) == sp_finish(cx@, ok, inner_view(inner), *fexp),
        !(r is Fatal),
{
    if ok {
        Flow::Done(build_crit(true, None, inner))
    } else {
        match q_fexp(cx, fexp) {
            Flow::Done(x) => Flow::Done(build_crit(false, x, inner)),
            Flow::Catch(e) => Flow::Catch(e),
            Flow::Need(q) => Flow::Need(q),
            Flow::Fatal(e) => Flow::Fatal(e),
        }
    }
}

fn push_unevaluated(v: &mut Vec<MaybeEval<RuntimeCriterion>>, n: usize)
    ensures
        maybe_crits_view(*final(v)) == maybe_crits_view(*old(v)) + unevaluated(n as int),
{
    let ghost start = maybe_crits_view(*v);
    let mut k: usize = 0;
    while k < n
        invariant
            k <= n,
            maybe_crits_view(*v) == start + unevaluated(k as int),
        decreases n - k,
    {
        let ghost before = *v;
        v.push(MaybeEval::Unevaluated);
        k = k + 1;
        let ghost lhs = maybe_crits_view(*v);
        let ghost rhs = start + unevaluated(k as int);
        assert(maybe_crits_view(before) == start + unevaluated(k - 1));
        assert(lhs.len() == v@.len());
        assert(rhs.len() == v@.len());
        assert forall|j: int| 0 <= j < v@.len() implies #[trigger] lhs[j] == rhs[j] by {
            assert(lhs[j] == maybe_crit_view(v@[j]));
            if j < before@.len() {
                assert(v@[j] == before@[j]);
                assert(maybe_crits_view(before)[j] == maybe_crit_view(before@[j]));
                if j >= start.len() {
                    assert(unevaluated(k - 1)[j - start.len()] == MaybeV::<CritV>::Unevaluated);
                }
            } else {
                assert(v@[j] == MaybeEval::<RuntimeCriterion>::Unevaluated);
            }
        }
        assert(lhs =~= rhs);
        assert(maybe_crits_view(*v) =~= start + unevaluated(k as int));
    }
}

fn eval_any_of(cx: &EvalContext, clauses: &Vec<EntityId<CriterionEntity>>, fexp: &Option<ValueReference>) -> (r: Flow<RuntimeCriterion>)
    ensures
        fmap(r, |c: RuntimeCriterion| c@) == sp_any_of(cx@, ids_of(clauses@), 0, Seq::empty(), *fexp),
        !(r is Fatal),
{
    let ghost ids = ids_of(clauses@);
    let mut computed: Vec<MaybeEval<RuntimeCriterion>> = Vec::new();
    let mut i: usize = 0;
    assert(maybe_crits_view(computed) =~= Seq::<MaybeV<CritV>>::empty());
    while i < clauses.len()
        invariant
            i <= clauses.len(),
            ids == ids_of(clauses@),
            sp_any_of(cx@, ids, 0, Seq::empty(), *fexp) == sp_any_of(cx@, ids, i as int, maybe_crits_view(computed), *fexp),
        decreases clauses.len() - i,
    {
        let ghost acc = maybe_crits_view(computed);
        match q_id::<RuntimeCriterion>(cx, clauses[i].0) {
            Flow::Done(c) => {
                let ok = c.is_fulfilled();
                let ghost cv = c@;
                computed.push(MaybeEval::Evaluated(c));
                assert(maybe_crits_view(computed) =~= acc.push(MaybeV::Evaluated(cv)));
                if ok {
                    push_unevaluated(&mut computed, clauses.len() - i - 1);
                    return Flow::Done(build_crit(true, None, InnerRuntimeCriterion::AnyOf { clauses: computed }));
                }
            },
            Flow::Catch(e) => {
                return Flow::Catch(e);
            },
            Flow::Need(q) => {
                return Flow::Need(q);
            },
            Flow::Fatal(e) => {
                return Flow::Fatal(e);
            },
        }
        i = i + 1;
    }
    finish(cx, false, InnerRuntimeCriterion::AnyOf { clauses: computed }, fexp)
}

fn eval_all_of(cx: &EvalContext, clauses: &Vec<EntityId<CriterionEntity>>, fexp: &Option<ValueReference>) -> (r: Flow<RuntimeCriterion>)
    ensures
        fmap(r, |c: RuntimeCriterion| c@) == sp_all_of(cx@, ids_of(clauses@), 0, Seq::empty(), *fexp),
        !(r is Fatal),
{
    let ghost ids = ids_of(clauses@);
    let mut computed: Vec<MaybeEval<RuntimeCriterion>> = Vec::new();
    let mut i: usize = 0;
    assert(maybe_crits_view(computed) =~= Seq::<MaybeV<CritV>>::empty());
    while i < clauses.len()
        invariant
            i <= clauses.len(),
            ids == ids_of(clauses@),
            sp_all_of(cx@, ids, 0, Seq::empty(), *fexp) == sp_all_of(cx@, ids, i as int, maybe_crits_view(computed), *fexp),
        decreases clauses.len() - i,
    {
        let ghost acc = maybe_crits_view(computed);
        match q_id::<RuntimeCriterion>(cx, clauses[i].0) {
            Flow::Done(c) => {
                let ok = c.is_fulfilled();
                let ghost cv = c@;
                computed.push(MaybeEval::Evaluated(c));
                assert(maybe_crits_view(computed) =~= acc.push(MaybeV::Evaluated(cv)));
                if !ok {
                    push_unevaluated(&mut computed, clauses.len() - i - 1);
                    return finish(cx, false, InnerRuntimeCriterion::AllOf { clauses: computed }, fexp);
                }
            },
            Flow::Catch(e) => {
                return Flow::Catch(e);
            },
            Flow::Need(q) => {
                return Flow::Need(q);
            },
            Flow::Fatal(e) => {
                return Flow::Fatal(e);
            },
        }
        i = i + 1;
    }
    Flow::Done(build_crit(true, None, InnerRuntimeCriterion::AllOf { clauses: computed }))
}

fn clone_explanation(c: &RuntimeCriterion) -> (r: Option<Text>)
    ensures
        opt_text(r) == explanation_of(c@),
{
    match c.failure_explaination() {
        Some(t) => Some(t.clone()),
        None => None,
    }
}

fn eval_negated(cx: &EvalContext, clause: u64, fexp: &Option<ValueReference>) -> (r: Flow<RuntimeCriterion>)
    ensures
        fmap(r, |c: RuntimeCriterion| c@) == sp_negated(cx@, clause, *fexp),
        !(r is Fatal),
{
    match q_id::<RuntimeCriterion>(cx, clause) {
        Flow::Done(c) => {
            let ok = c.is_not_fulfilled();
            let none: Option<ValueReference> = None;
            let f = if ok { q_fexp(cx, &none) } else { q_fexp(cx, fexp) };
            match f {
                Flow::Done(outer) => {
                    let expl = match outer {
                        Some(t) => Some(t),
                        None => clone_explanation(&c),
                    };
                    Flow::Done(build_crit(ok, expl, InnerRuntimeCriterion::Negated { clause: Box::new(c) }))
                },
                Flow::Catch(e) => Flow::Catch(e),
                Flow::Need(q) => Flow::Need(q),
                Flow::Fatal(e) => Flow::Fatal(e),
            }
        },
        Flow::Catch(e) => Flow::Catch(e),
        Flow::Need(q) => Flow::Need(q),
        Flow::Fatal(e) => Flow::Fatal(e),
    }
}

fn eval_crit_if_then_else(cx: &EvalContext, if_: u64, then_: u64, else_: u64, fexp: &Option<ValueReference>) -> (r: Flow<RuntimeCriterion>)
    ensures
        fmap(r, |c: RuntimeCriterion| c@) == sp_if_then_else(cx@, if_, then_, else_, *fexp),
        !(r is Fatal),
{
    match q_id::<RuntimeCriterion>(cx, if_) {
        Flow::Done(c) => {
            let branch = if c.is_fulfilled() { then_ } else { else_ };
            match q_id::<RuntimeCriterion>(cx, branch) {
                Flow::Done(s) => {
                    let ok = s.is_fulfilled();
                    let none: Option<ValueReference> = None;
                    let f = if ok { q_fexp(cx, &none) } else { q_fexp(cx, fexp) };
                    match f {
                        Flow::Done(outer) => {
                            let expl = match outer {
                                Some(t) => Some(t),
                                None => clone_explanation(&s),
                            };
                            Flow::Done(build_crit(ok, expl, InnerRuntimeCriterion::IfThenElse {
                                if_: Box::new(c),
                                selected_branch: Box::new(s),
                                other_branch: Box::new(MaybeEval::Unevaluated),
                            }))
                        },
                        Flow::Catch(e) => Flow::Catch(e),
                        Flow::Need(q) => Flow::Need(q),
                        Flow::Fatal(e) => Flow::Fatal(e),
                    }
                },
                Flow::Catch(e) => Flow::Catch(e),
                Flow::Need(q) => Flow::Need(q),
                Flow::Fatal(e) => Flow::Fatal(e),
            }
        },
        Flow::Catch(e) => Flow::Catch(e),
        Flow::Need(q) => Flow::Need(q),
        Flow::Fatal(e) => Flow::Fatal(e),
    }
}

} // verus!

verus! {

// ---------------------------------------------------------------------------
// Comparisons and text criteria
// ---------------------------------------------------------------------------

/// Whether the order of two operands satisfies `op`, given whether the left
/// one is smaller and whether they are equal.
pub open spec fn order_holds(op: CompareOp, less: bool, equal: bool) -> bool {
    match op {
        CompareOp::Equal => equal,
        CompareOp::NotEqual => !equal,
        CompareOp::LowerThen => less,
        CompareOp::LowerEqual => less || equal,
        CompareOp::GreaterThen => !less && !equal,
        CompareOp::GreaterEqual => !less,
    }
}

/// The outcome of a comparison where it does not rest on the arithmetic of
/// numbers: two texts compare in the order of `str`; a text and a number
/// compare with the text of the number, except for (in)equality, which holds
/// when the text reads as the same integer. `None` where the numbers decide.
pub open spec fn local_compare(op: CompareOp, l: PrimV, r: PrimV) -> Option<bool> {
    let eq_op = op == CompareOp::Equal || op == CompareOp::NotEqual;
    match (l, r) {
        (PrimV::Str(a), PrimV::Str(b)) => Some(order_holds(op, chars_lt(a, b), a == b)),
        (PrimV::Str(a), PrimV::Num(n)) => if eq_op {
            str_int_eq(op, a, n)
        } else {
            Some(order_holds(op, chars_lt(a, num_text(n)), a == num_text(n)))
        },
        (PrimV::Num(n), PrimV::Str(b)) => if eq_op {
            str_int_eq(op, b, n)
        } else {
            Some(order_holds(op, chars_lt(num_text(n), b), num_text(n) == b))
        },
        (PrimV::Num(_), PrimV::Num(_)) => None,
    }
}

/// (In)equality of a text and an integer, where the text reads as an `i64`.
pub open spec fn str_int_eq(op: CompareOp, s: Seq<char>, n: NumV) -> Option<bool> {
    match (parse_i64_spec(s), n) {
        (Some(i), NumV::Int(j)) => Some(order_holds(op, false, i == j)),
        _ => None,
    }
}

/// The answer to a question whose outcome is a decision.
pub open spec fn sp_decision(cx: CtxV, task: TaskV) -> FlowV<bool> {
    match cx.answer {
        None => FlowV::Need(QueryV::Numeric(task)),
        Some(AnswerV::Decision(b)) => FlowV::Done(b),
        Some(_) => FlowV::Fatal,
    }
}

/// The outcome of a comparison of two primitives.
pub open spec fn sp_decide(cx: CtxV, op: CompareOp, l: PrimV, r: PrimV) -> FlowV<bool> {
    match local_compare(op, l, r) {
        Some(b) => FlowV::Done(b),
        None => sp_decision(cx, TaskV::Compare(op, l, r)),
    }
}

/// How a comparison was decided.
pub open spec fn comparison_inner(op: CompareOp, l: PrimV, r: PrimV) -> InnerV {
    match op {
        CompareOp::Equal => InnerV::Equal(l, r),
        CompareOp::NotEqual => InnerV::NotEqual(l, r),
        CompareOp::LowerThen => InnerV::LowerThen(l, r),
        CompareOp::LowerEqual => InnerV::LowerEqual(l, r),
        CompareOp::GreaterThen => InnerV::GreaterThen(l, r),
        CompareOp::GreaterEqual => InnerV::GreaterEqual(l, r),
    }
}

/// A comparison criterion: both operands read as primitives, left first.
pub open spec fn sp_comparison(cx: CtxV, op: CompareOp, left: ValueReference, right: ValueReference, fexp: Option<ValueReference>) -> FlowV<CritV> {
    match sp_ref(cx, left, |a: AnyV| cast_prim(a)) {
        FlowV::Done(l) => match sp_ref(cx, right, |a: AnyV| cast_prim(a)) {
            FlowV::Done(r) => match sp_decide(cx, op, l, r) {
                FlowV::Done(b) => sp_finish(cx, b, comparison_inner(op, l, r), fexp),
                o => relabel(o),
            },
            o => relabel(o),
        },
        o => relabel(o),
    }
}

/// Whether a text contains the text of a primitive.
pub open spec fn sp_contain_text(cx: CtxV, sub: ValueReference, sup: ValueReference, fexp: Option<ValueReference>) -> FlowV<CritV> {
    match sp_ref(cx, sub, |a: AnyV| cast_prim(a)) {
        FlowV::Done(p) => match sp_ref(cx, sup, |a: AnyV| cast_text(a)) {
            FlowV::Done(t) => sp_finish(cx, seq_contains(t, prim_text(p)), InnerV::ContainText(p, t), fexp),
            o => relabel(o),
        },
        o => relabel(o),
    }
}

/// The parts, from the `i`-th on, occur one after the other in `text`, each
/// after the end of the one before (`p` is where the search goes on).
pub open spec fn sp_wgaps(cx: CtxV, parts: Seq<ValueReference>, i: int, acc: Seq<PrimV>, text: Seq<char>, p: int, fexp: Option<ValueReference>) -> FlowV<CritV>
    decreases parts.len() - i,
{
    if i >= parts.len() || i < 0 {
        FlowV::Done(crit(true, None, InnerV::ContainWithGaps(acc, 0, text)))
    } else {
        match sp_ref(cx, parts[i], |a: AnyV| cast_prim(a)) {
            FlowV::Done(part) => match first_occurrence_from(text, prim_text(part), p) {
                Some(k) => sp_wgaps(cx, parts, i + 1, acc.push(part), text, k + prim_text(part).len(), fexp),
                None => sp_finish(cx, false, InnerV::ContainWithGaps(acc.push(part), (parts.len() - i - 1) as nat, text), fexp),
            },
            o => relabel(o),
        }
    }
}

/// A text that contains the parts in their order, with anything between.
pub open spec fn sp_contain_with_gaps(cx: CtxV, parts: Seq<ValueReference>, sup: ValueReference, fexp: Option<ValueReference>) -> FlowV<CritV> {
    match sp_ref(cx, sup, |a: AnyV| cast_text(a)) {
        FlowV::Done(t) => sp_wgaps(cx, parts, 0, Seq::empty(), t, 0, fexp),
        o => relabel(o),
    }
}

/// A text that holds a number (`only`: as its only number). Which numbers
/// the text holds, and whether the number is among them, is answered by
/// `Answer::Found`.
pub open spec fn sp_contain_num(cx: CtxV, only: bool, sub: ValueReference, sup: ValueReference, fexp: Option<ValueReference>) -> FlowV<CritV> {
    match sp_ref(cx, sub, |a: AnyV| cast_num(a)) {
        FlowV::Done(n) => match sp_ref(cx, sup, |a: AnyV| cast_text(a)) {
            FlowV::Done(t) => match cx.answer {
                None => FlowV::Need(QueryV::Numeric(TaskV::ContainsNumber(n, find_numbers_spec(t)))),
                Some(AnswerV::Found(found, contains)) => sp_finish(
                    cx,
                    if only { contains && found.len() == 1 } else { contains },
                    InnerV::ContainNum(n, t, found),
                    fexp,
                ),
                Some(_) => FlowV::Fatal,
            },
            o => relabel(o),
        },
        o => relabel(o),
    }
}

/// Whether the regular expression matches the haystack: a text, or any text
/// in an array; a number or a mapping is no haystack.
pub open spec fn regex_hit(p: Seq<char>, v: ValueV) -> Result<bool, cerr> {
    match v {
        ValueV::Prim(PrimV::Str(t)) => Ok(regex_is_match(p, t)),
        ValueV::Array(items) => Ok(exists|i: int| 0 <= i < items.len() && #[trigger] str_hit(p, items[i])),
        _ => Err(cerr::regex_invalidHaystack()),
    }
}

/// An item of an array that is a text the regular expression matches.
pub open spec fn str_hit(p: Seq<char>, v: ValueV) -> bool {
    match v {
        ValueV::Prim(PrimV::Str(t)) => regex_is_match(p, t),
        _ => false,
    }
}

/// A criterion that a regular expression matches.
pub open spec fn sp_matches_regex(cx: CtxV, pattern: ValueReference, sup: ValueReference, fexp: Option<ValueReference>) -> FlowV<CritV> {
    match sp_ref(cx, pattern, |a: AnyV| cast_text(a)) {
        FlowV::Done(p) => match sp_ref(cx, sup, |a: AnyV| cast_value(a)) {
            FlowV::Done(v) => if !regex_valid(p) {
                FlowV::Catch(cerr::regex_syntax())
            } else {
                match regex_hit(p, v) {
                    Ok(b) => sp_finish(cx, b, InnerV::MatchesRegex(p, v), fexp),
                    Err(e) => FlowV::Catch(e),
                }
            },
            o => relabel(o),
        },
        o => relabel(o),
    }
}

fn order_from(op: CompareOp, k: KeyOrder) -> (r: bool)
    ensures
        r == order_holds(op, k == KeyOrder::Less, k == KeyOrder::Equal),
{
    match op {
        CompareOp::Equal => k == KeyOrder::Equal,
        CompareOp::NotEqual => k != KeyOrder::Equal,
        CompareOp::LowerThen => k == KeyOrder::Less,
        CompareOp::LowerEqual => k != KeyOrder::Greater,
        CompareOp::GreaterThen => k == KeyOrder::Greater,
        CompareOp::GreaterEqual => k != KeyOrder::Less,
    }
}

fn str_int_eq_exec(op: CompareOp, s: &Text, n: &Numeric) -> (r: Option<bool>)
    ensures
        r == str_int_eq(op, s@, n@),
{
    match (parse_i64(s.as_str()), n) {
        (Some(i), Numeric::Int(j)) => {
            let k = if i == *j { KeyOrder::Equal } else { KeyOrder::Greater };
            Some(order_from(op, k))
        },
        _ => None,
    }
}

fn local_compare_exec(op: CompareOp, l: &PrimitiveValue, r: &PrimitiveValue) -> (res: Option<bool>)
    ensures
        res == local_compare(op, l@, r@),
{
    let eq_op = op == CompareOp::Equal || op == CompareOp::NotEqual;
    match (l, r) {
        (PrimitiveValue::Str(a), PrimitiveValue::Str(b)) => Some(order_from(op, compare_text(a, b))),
        (PrimitiveValue::Str(a), PrimitiveValue::Number(n)) => if eq_op {
            str_int_eq_exec(op, a, n)
        } else {
            let t = n.to_text();
            Some(order_from(op, compare_text(a, &t)))
        },
        (PrimitiveValue::Number(n), PrimitiveValue::Str(b)) => if eq_op {
            str_int_eq_exec(op, b, n)
        } else {
            let t = n.to_text();
            Some(order_from(op, compare_text(&t, b)))
        },
        (PrimitiveValue::Number(_), PrimitiveValue::Number(_)) => None,
    }
}

fn ask_decision(cx: &EvalContext, task: NumericTask) -> (r: Flow<bool>)
    ensures
        fmap(r, |b: bool| b) == sp_decision(cx@, task@),
{
    match cx.answer {
        None => Flow::Need(Query::Numeric(task)),
        Some(Answer::Decision(b)) => Flow::Done(*b),
        Some(_) => Flow::Fatal(FatalError::AnswerMismatch),
    }
}

fn build_comparison_inner(op: CompareOp, left: PrimitiveValue, right: PrimitiveValue) -> (r: InnerRuntimeCriterion)
    ensures
        inner_view(r) == comparison_inner(op, left@, right@),
{
    match op {
        CompareOp::Equal => InnerRuntimeCriterion::Equal { left, right },
        CompareOp::NotEqual => InnerRuntimeCriterion::NotEqual { left, right },
        CompareOp::LowerThen => InnerRuntimeCriterion::LowerThen { left, right },
        CompareOp::LowerEqual => InnerRuntimeCriterion::LowerEqual { left, right },
        CompareOp::GreaterThen => InnerRuntimeCriterion::GreaterThen { left, right },
        CompareOp::GreaterEqual => InnerRuntimeCriterion::GreaterEqual { left, right },
    }
}

fn eval_comparison(cx: &EvalContext, op: CompareOp, left: &ValueReference, right: &ValueReference, fexp: &Option<ValueReference>) -> (r: Flow<RuntimeCriterion>)
    ensures
        fmap(r, |c: RuntimeCriterion| c@) == sp_comparison(cx@, op, *left, *right, *fexp),
{
    let l = match q_ref::<PrimitiveValue>(cx, left) {
        Flow::Done(x) => x,
        Flow::Catch(e) => return Flow::Catch(e),
        Flow::Need(q) => return Flow::Need(q),
        Flow::Fatal(e) => return Flow::Fatal(e),
    };
    let r = match q_ref::<PrimitiveValue>(cx, right) {
        Flow::Done(x) => x,
        Flow::Catch(e) => return Flow::Catch(e),
        Flow::Need(q) => return Flow::Need(q),
        Flow::Fatal(e) => return Flow::Fatal(e),
    };
    let d = match local_compare_exec(op, &l, &r) {
        Some(b) => Flow::Done(b),
        None => ask_decision(cx, NumericTask::Compare { op, left: l.clone(), right: r.clone() }),
    };
    match d {
        Flow::Done(b) => finish(cx, b, build_comparison_inner(op, l, r), fexp),
        Flow::Catch(e) => Flow::Catch(e),
        Flow::Need(q) => Flow::Need(q),
        Flow::Fatal(e) => Flow::Fatal(e),
    }
}

fn eval_contain_text(cx: &EvalContext, sub: &ValueReference, sup: &ValueReference, fexp: &Option<ValueReference>) -> (r: Flow<RuntimeCriterion>)
    ensures
        fmap(r, |c: RuntimeCriterion| c@) == sp_contain_text(cx@, *sub, *sup, *fexp),
{
    let p = match q_ref::<PrimitiveValue>(cx, sub) {
        Flow::Done(x) => x,
        Flow::Catch(e) => return Flow::Catch(e),
        Flow::Need(q) => return Flow::Need(q),
        Flow::Fatal(e) => return Flow::Fatal(e),
    };
    let t = match q_ref::<Text>(cx, sup) {
        Flow::Done(x) => x,
        Flow::Catch(e) => return Flow::Catch(e),
        Flow::Need(q) => return Flow::Need(q),
        Flow::Fatal(e) => return Flow::Fatal(e),
    };
    let pt = p.clone().into_text();
    let ok = text_contains(&t, &pt);
    finish(cx, ok, InnerRuntimeCriterion::ContainText { sub: p, sup: t }, fexp)
}

} // verus!

verus! {

// ---------------------------------------------------------------------------
// Searching texts, and catching errors of criteria
// ---------------------------------------------------------------------------

fn eval_contain_with_gaps(cx: &EvalContext, parts: &Vec<ValueReference>, sup: &ValueReference, fexp: &Option<ValueReference>) -> (r: Flow<RuntimeCriterion>)
    ensures
        fmap(r, |c: RuntimeCriterion| c@) == sp_contain_with_gaps(cx@, parts@, *sup, *fexp),
{
    let t = match q_ref::<Text>(cx, sup) {
        Flow::Done(x) => x,
        Flow::Catch(e) => return Flow::Catch(e),
        Flow::Need(q) => return Flow::Need(q),
        Flow::Fatal(e) => return Flow::Fatal(e),
    };
    let cs = chars_of(t.as_str());
    let mut acc: Vec<PrimitiveValue> = Vec::new();
    let mut p: usize = 0;
    let mut i: usize = 0;
    assert(acc@.map_values(|x: PrimitiveValue| x@) =~= Seq::<PrimV>::empty());
    while i < parts.len()
        invariant
            i <= parts.len(),
            p <= cs@.len(),
            cs@ == t@,
            sp_contain_with_gaps(cx@, parts@, *sup, *fexp) == sp_wgaps(cx@, parts@, i as int, acc@.map_values(|x: PrimitiveValue| x@), t@, p as int, *fexp),
        decreases parts.len() - i,
    {
        let part = match q_ref::<PrimitiveValue>(cx, &parts[i]) {
            Flow::Done(x) => x,
            Flow::Catch(e) => return Flow::Catch(e),
            Flow::Need(q) => return Flow::Need(q),
            Flow::Fatal(e) => return Flow::Fatal(e),
        };
        let ghost before = acc@.map_values(|x: PrimitiveValue| x@);
        let pt = part.clone().into_text();
        let pcs = chars_of(pt.as_str());
        let found = find_from(&cs, &pcs, p);
        acc.push(part);
        assert(acc@.map_values(|x: PrimitiveValue| x@) =~= before.push(part@));
        match found {
            Some(k) => {
                assert(occurs_at(cs@, pcs@, k as int));
                assert(k + pcs@.len() <= cs@.len());
                assert(cs@.len() == cs.len());
                p = k + pcs.len();
            },
            None => {
                let rest = parts.len() - i - 1;
                return finish(
                    cx,
                    false,
                    InnerRuntimeCriterion::ContainWithGaps { parts: acc, unevaluated_parts: rest, sup: t },
                    fexp,
                );
            },
        }
        i = i + 1;
    }
    Flow::Done(build_crit(true, None, InnerRuntimeCriterion::ContainWithGaps { parts: acc, unevaluated_parts: 0, sup: t }))
}

fn eval_contain_num(cx: &EvalContext, only: bool, sub: &ValueReference, sup: &ValueReference, fexp: &Option<ValueReference>) -> (r: Flow<RuntimeCriterion>)
    ensures
        fmap(r, |c: RuntimeCriterion| c@) == sp_contain_num(cx@, only, *sub, *sup, *fexp),
{
    let n = match q_ref::<Numeric>(cx, sub) {
        Flow::Done(x) => x,
        Flow::Catch(e) => return Flow::Catch(e),
        Flow::Need(q) => return Flow::Need(q),
        Flow::Fatal(e) => return Flow::Fatal(e),
    };
    let t = match q_ref::<Text>(cx, sup) {
        Flow::Done(x) => x,
        Flow::Catch(e) => return Flow::Catch(e),
        Flow::Need(q) => return Flow::Need(q),
        Flow::Fatal(e) => return Flow::Fatal(e),
    };
    match cx.answer {
        None => {
            let candidates = find_numbers(&t);
            Flow::Need(Query::Numeric(NumericTask::ContainsNumber { sub: n, candidates }))
        },
        Some(Answer::Found(found, contains)) => {
            let ok = if only { *contains && found.len() == 1 } else { *contains };
            let found = clone_numbers(found);
            finish(cx, ok, InnerRuntimeCriterion::ContainNum { sub: n, sup: t, found }, fexp)
        },
        Some(_) => Flow::Fatal(FatalError::AnswerMismatch),
    }
}

fn regex_hit_exec(c: &CompiledPattern, v: &RuntimeValue) -> (r: Result<bool, cerr>)
    ensures
        r == regex_hit(c.pattern_view(), v@),
{
    match v {
        RuntimeValue::Prim(PrimitiveValue::Str(t)) => Ok(regex_matches(c, t)),
        RuntimeValue::Prim(PrimitiveValue::Number(_)) => Err(cerr::regex_invalidHaystack()),
        RuntimeValue::Comp(MappingOrArray::Mapping(_)) => Err(cerr::regex_invalidHaystack()),
        RuntimeValue::Comp(MappingOrArray::Array(a)) => {
            let ghost items = v@->Array_0;
            let ghost p = c.pattern_view();
            assert(items.len() == a.0@.len());
            let mut i: usize = 0;
            while i < a.0.len()
                invariant
                    i <= a.0@.len(),
                    items.len() == a.0@.len(),
                    items == v@->Array_0,
                    *v == RuntimeValue::Comp(MappingOrArray::Array(*a)),
                    p == c.pattern_view(),
                    forall|j: int| 0 <= j < i ==> !#[trigger] str_hit(p, items[j]),
                decreases a.0@.len() - i,
            {
                assert(items[i as int] == a.0@[i as int]@);
                match &a.0[i] {
                    RuntimeValue::Prim(PrimitiveValue::Str(t)) => {
                        if regex_matches(c, t) {
                            assert(str_hit(p, items[i as int]));
                            return Ok(true);
                        }
                    },
                    _ => {},
                }
                i = i + 1;
            }
            Ok(false)
        },
    }
}

fn eval_matches_regex(cx: &EvalContext, pattern: &ValueReference, sup: &ValueReference, fexp: &Option<ValueReference>) -> (r: Flow<RuntimeCriterion>)
    ensures
        fmap(r, |c: RuntimeCriterion| c@) == sp_matches_regex(cx@, *pattern, *sup, *fexp),
{
    let p = match q_ref::<Text>(cx, pattern) {
        Flow::Done(x) => x,
        Flow::Catch(e) => return Flow::Catch(e),
        Flow::Need(q) => return Flow::Need(q),
        Flow::Fatal(e) => return Flow::Fatal(e),
    };
    let v = match q_ref::<RuntimeValue>(cx, sup) {
        Flow::Done(x) => x,
        Flow::Catch(e) => return Flow::Catch(e),
        Flow::Need(q) => return Flow::Need(q),
        Flow::Fatal(e) => return Flow::Fatal(e),
    };
    let c = match compile_regex(&p) {
        Some(c) => c,
        None => return Flow::Catch(cerr::regex_syntax()),
    };
    let hit = match regex_hit_exec(&c, &v) {
        Ok(b) => b,
        Err(e) => return Flow::Catch(e),
    };
    finish(cx, hit, InnerRuntimeCriterion::MatchesRegex { pattern: p, sup: v }, fexp)
}

/// The model of an optional action.
pub open spec fn act_view(a: Option<RuntimeAction>) -> Option<ActV> {
    match a {
        Some(x) => Some(x@),
        None => None,
    }
}

/// The tail of catching an error, once it is to be caught: the action (if
/// any) is read first, then the default (if any); the result is the
/// default, else the error again. The action is handed on with the result.
pub open spec fn sp_catch_tail<T>(cx: CtxV, found: cerr, dflt: Option<FlowV<T>>, action: Option<u64>) -> (FlowV<T>, Option<ActV>) {
    let body = match dflt {
        Some(f) => f,
        None => FlowV::Catch(found),
    };
    match action {
        None => (body, None),
        Some(aid) => match sp_id(cx, aid, |a: AnyV| cast_action(a)) {
            FlowV::Done(act) => (body, Some(act)),
            o => (relabel(o), None),
        },
    }
}

/// Catching an error `found` that an entity ended with: only errors within
/// `error`, and only where the `only_if` criterion (if any) is fulfilled.
pub open spec fn sp_catch_error<T>(cx: CtxV, found: cerr, error: cerr, only_if: Option<u64>, dflt: Option<FlowV<T>>, action: Option<u64>) -> (FlowV<T>, Option<ActV>) {
    if !error.spec_contains(found) {
        (FlowV::Catch(found), None)
    } else {
        match only_if {
            None => sp_catch_tail(cx, found, dflt, action),
            Some(oid) => match sp_id(cx, oid, |a: AnyV| cast_crit(a)) {
                FlowV::Done(c) => if c.fulfilled is Err {
                    (FlowV::Catch(found), None)
                } else {
                    sp_catch_tail(cx, found, dflt, action)
                },
                o => (relabel(o), None),
            },
        }
    }
}

/// A failed criterion takes the explanation of `fexp` (none if `fexp` is
/// none); a fulfilled one stays as it is.
pub open spec fn sp_set_fexp(cx: CtxV, c: CritV, fexp: Option<ValueReference>) -> FlowV<CritV> {
    if c.fulfilled is Ok {
        FlowV::Done(c)
    } else {
        match sp_fexp(cx, fexp) {
            FlowV::Done(x) => FlowV::Done(CritV { fulfilled: Err(x), inner: c.inner }),
            o => relabel(o),
        }
    }
}

/// A criterion that catches the errors of another one.
pub open spec fn sp_crit_catch(cx: CtxV, criterion: u64, error: cerr, only_if: Option<u64>, dflt: Option<u64>, action: Option<u64>, fexp: Option<ValueReference>) -> (FlowV<CritV>, Option<ActV>) {
    let inner: (FlowV<CritV>, Option<ActV>) = match sp_entity(cx, criterion) {
        FlowV::Done(AnyV::Criterion(c)) => (FlowV::Done(c), None),
        FlowV::Done(a) => sp_catch_error(
            cx,
            match a {
                AnyV::Catchable(e) => e,
                _ => cerr::typing_notCriterion(),
            },
            error,
            only_if,
            match dflt {
                Some(d) => Some(sp_id(cx, d, |a: AnyV| cast_crit(a))),
                None => None,
            },
            action,
        ),
        o => (relabel(o), None),
    };
    match inner.0 {
        FlowV::Done(c) => (sp_set_fexp(cx, c, fexp), inner.1),
        o => (o, inner.1),
    }
}

fn set_fexp(cx: &EvalContext, c: RuntimeCriterion, fexp: &Option<ValueReference>) -> (r: Flow<RuntimeCriterion>)
    ensures
        fmap(r, |c: RuntimeCriterion| c@) == sp_set_fexp(cx@, c@, *fexp),
{
    if c.is_fulfilled() {
        Flow::Done(c)
    } else {
        match q_fexp(cx, fexp) {
            Flow::Done(x) => {
                let r = RuntimeCriterion { fulfilled: Err(x), inner: c.inner };
                Flow::Done(r)
            },
            Flow::Catch(e) => Flow::Catch(e),
            Flow::Need(q) => Flow::Need(q),
            Flow::Fatal(e) => Flow::Fatal(e),
        }
    }
}

/// Reads the action of a catch, when there is one.
fn read_action(cx: &EvalContext, action: Option<EntityId<ActionEntity>>) -> (r: Flow<Option<RuntimeAction>>)
    ensures
        match action {
            None => r matches Flow::Done(None),
            Some(aid) => match sp_id(cx@, aid.0, |a: AnyV| cast_action(a)) {
                FlowV::Done(act) => r matches Flow::Done(Some(x)) && x@ == act,
                o => fmap(r, |x: Option<RuntimeAction>| ()) == relabel::<ActV, ()>(o),
            },
        },
{
    match action {
        None => Flow::Done(None),
        Some(aid) => match q_id::<RuntimeAction>(cx, aid.0) {
            Flow::Done(a) => Flow::Done(Some(a)),
            Flow::Catch(e) => Flow::Catch(e),
            Flow::Need(q) => Flow::Need(q),
            Flow::Fatal(e) => Flow::Fatal(e),
        },
    }
}

/// Whether the `only_if` criterion of a catch lets it catch.
fn read_only_if(cx: &EvalContext, only_if: Option<EntityId<CriterionEntity>>) -> (r: Flow<bool>)
    ensures
        match only_if {
            None => r matches Flow::Done(true),
            Some(oid) => match sp_id(cx@, oid.0, |a: AnyV| cast_crit(a)) {
                FlowV::Done(c) => r matches Flow::Done(b) && b == (c.fulfilled is Ok),
                o => fmap(r, |x: bool| ()) == relabel::<CritV, ()>(o),
            },
        },
{
    match only_if {
        None => Flow::Done(true),
        Some(oid) => match q_id::<RuntimeCriterion>(cx, oid.0) {
            Flow::Done(c) => Flow::Done(c.is_fulfilled()),
            Flow::Catch(e) => Flow::Catch(e),
            Flow::Need(q) => Flow::Need(q),
            Flow::Fatal(e) => Flow::Fatal(e),
        },
    }
}

fn eval_crit_catch(
    cx: &EvalContext,
    criterion: EntityId<CriterionEntity>,
    error: cerr,
    only_if: Option<EntityId<CriterionEntity>>,
    dflt: Option<EntityId<CriterionEntity>>,
    action: Option<EntityId<ActionEntity>>,
    fexp: &Option<ValueReference>,
) -> (r: (Flow<RuntimeCriterion>, Option<RuntimeAction>))
    ensures
        ({
            let s = sp_crit_catch(
                cx@,
                criterion.0,
                error,
                match only_if { Some(x) => Some(x.0), None => None },
                match dflt { Some(x) => Some(x.0), None => None },
                match action { Some(x) => Some(x.0), None => None },
                *fexp,
            );
            fmap(r.0, |c: RuntimeCriterion| c@) == s.0 && act_view(r.1) == s.1
        }),
{
    let a = match get_entity(cx, criterion.0) {
        Ok(a) => a,
        Err(q) => return (Flow::Need(q), None),
    };
    let found = match a {
        RuntimeAny::Criterion(c) => {
            return (set_fexp(cx, crate::spec::runtime::clone_crit(c), fexp), None);
        },
        RuntimeAny::Catchable(e) => *e,
        _ => cerr::typing_notCriterion(),
    };
    if !error.contains(found) {
        return (Flow::Catch(found), None);
    }
    match read_only_if(cx, only_if) {
        Flow::Done(ok) => {
            if !ok {
                return (Flow::Catch(found), None);
            }
        },
        Flow::Catch(e) => return (Flow::Catch(e), None),
        Flow::Need(q) => return (Flow::Need(q), None),
        Flow::Fatal(e) => return (Flow::Fatal(e), None),
    }
    let act = match read_action(cx, action) {
        Flow::Done(x) => x,
        Flow::Catch(e) => return (Flow::Catch(e), None),
        Flow::Need(q) => return (Flow::Need(q), None),
        Flow::Fatal(e) => return (Flow::Fatal(e), None),
    };
    let body: Flow<RuntimeCriterion> = match dflt {
        Some(d) => q_id::<RuntimeCriterion>(cx, d.0),
        None => Flow::Catch(found),
    };
    match body {
        Flow::Done(c) => (set_fexp(cx, c, fexp), act),
        Flow::Catch(e) => (Flow::Catch(e), act),
        Flow::Need(q) => (Flow::Need(q), act),
        Flow::Fatal(e) => (Flow::Fatal(e), act),
    }
}

} // verus!

verus! {

// ---------------------------------------------------------------------------
// Criteria: all kinds
// ---------------------------------------------------------------------------

/// What evaluating a criterion gives, and the action a catch hands on.
pub open spec fn sp_criterion(cx: CtxV, e: CriterionEntity) -> (FlowV<CritV>, Option<ActV>) {
    match e {
        CriterionEntity::Negated { failure_explaination, clause } => (sp_negated(cx, clause.0, failure_explaination), None),
        CriterionEntity::AnyOf { failure_explaination, clauses } => (sp_any_of(cx, ids_of(clauses@), 0, Seq::empty(), failure_explaination), None),
        CriterionEntity::AllOf { failure_explaination, clauses } => (sp_all_of(cx, ids_of(clauses@), 0, Seq::empty(), failure_explaination), None),
        CriterionEntity::ContainOnlynum { failure_explaination, sub, sup } => (sp_contain_num(cx, true, sub, sup, failure_explaination), None),
        CriterionEntity::ContainNum { failure_explaination, sub, sup } => (sp_contain_num(cx, false, sub, sup, failure_explaination), None),
        CriterionEntity::ContainText { failure_explaination, sub, sup } => (sp_contain_text(cx, sub, sup, failure_explaination), None),
        CriterionEntity::ContainWithGaps { failure_explaination, parts, sup } => (sp_contain_with_gaps(cx, parts@, sup, failure_explaination), None),
        CriterionEntity::MatchesRegex { failure_explaination, pattern, sup } => (sp_matches_regex(cx, pattern, sup, failure_explaination), None),
        CriterionEntity::GreaterThen { failure_explaination, left, right } => (sp_comparison(cx, CompareOp::GreaterThen, left, right, failure_explaination), None),
        CriterionEntity::LowerThen { failure_explaination, left, right } => (sp_comparison(cx, CompareOp::LowerThen, left, right, failure_explaination), None),
        CriterionEntity::GreaterEqual { failure_explaination, left, right } => (sp_comparison(cx, CompareOp::GreaterEqual, left, right, failure_explaination), None),
        CriterionEntity::LowerEqual { failure_explaination, left, right } => (sp_comparison(cx, CompareOp::LowerEqual, left, right, failure_explaination), None),
        CriterionEntity::NotEqual { failure_explaination, left, right } => (sp_comparison(cx, CompareOp::NotEqual, left, right, failure_explaination), None),
        CriterionEntity::Equal { failure_explaination, left, right } => (sp_comparison(cx, CompareOp::Equal, left, right, failure_explaination), None),
        CriterionEntity::Catch { failure_explaination, criterion, error, only_if, default_value, action } => sp_crit_catch(
            cx,
            criterion.0,
            error,
            match only_if { Some(x) => Some(x.0), None => None },
            match default_value { Some(x) => Some(x.0), None => None },
            match action { Some(x) => Some(x.0), None => None },
            failure_explaination,
        ),
        CriterionEntity::IfThenElse { failure_explaination, if_, then_, else_ } => (sp_if_then_else(cx, if_.0, then_.0, else_.0, failure_explaination), None),
    }
}

/// Evaluates a criterion.
pub fn eval_criterion(cx: &EvalContext, e: &CriterionEntity) -> (r: (Flow<RuntimeCriterion>, Option<RuntimeAction>))
    ensures
        fmap(r.0, |c: RuntimeCriterion| c@) == sp_criterion(cx@, *e).0,
        act_view(r.1) == sp_criterion(cx@, *e).1,
{
    match e {
        CriterionEntity::Negated { failure_explaination, clause } => (eval_negated(cx, clause.0, failure_explaination), None),
        CriterionEntity::AnyOf { failure_explaination, clauses } => (eval_any_of(cx, clauses, failure_explaination), None),
        CriterionEntity::AllOf { failure_explaination, clauses } => (eval_all_of(cx, clauses, failure_explaination), None),
        CriterionEntity::ContainOnlynum { failure_explaination, sub, sup } => (eval_contain_num(cx, true, sub, sup, failure_explaination), None),
        CriterionEntity::ContainNum { failure_explaination, sub, sup } => (eval_contain_num(cx, false, sub, sup, failure_explaination), None),
        CriterionEntity::ContainText { failure_explaination, sub, sup } => (eval_contain_text(cx, sub, sup, failure_explaination), None),
        CriterionEntity::ContainWithGaps { failure_explaination, parts, sup } => (eval_contain_with_gaps(cx, parts, sup, failure_explaination), None),
        CriterionEntity::MatchesRegex { failure_explaination, pattern, sup } => (eval_matches_regex(cx, pattern, sup, failure_explaination), None),
        CriterionEntity::GreaterThen { failure_explaination, left, right } => (eval_comparison(cx, CompareOp::GreaterThen, left, right, failure_explaination), None),
        CriterionEntity::LowerThen { failure_explaination, left, right } => (eval_comparison(cx, CompareOp::LowerThen, left, right, failure_explaination), None),
        CriterionEntity::GreaterEqual { failure_explaination, left, right } => (eval_comparison(cx, CompareOp::GreaterEqual, left, right, failure_explaination), None),
        CriterionEntity::LowerEqual { failure_explaination, left, right } => (eval_comparison(cx, CompareOp::LowerEqual, left, right, failure_explaination), None),
        CriterionEntity::NotEqual { failure_explaination, left, right } => (eval_comparison(cx, CompareOp::NotEqual, left, right, failure_explaination), None),
        CriterionEntity::Equal { failure_explaination, left, right } => (eval_comparison(cx, CompareOp::Equal, left, right, failure_explaination), None),
        CriterionEntity::Catch { failure_explaination, criterion, error, only_if, default_value, action } => eval_crit_catch(
            cx,
            *criterion,
            *error,
            *only_if,
            *default_value,
            *action,
            failure_explaination,
        ),
        CriterionEntity::IfThenElse { failure_explaination, if_, then_, else_ } => (eval_crit_if_then_else(cx, if_.0, then_.0, else_.0, failure_explaination), None),
    }
}

// ---------------------------------------------------------------------------
// Actions
// ---------------------------------------------------------------------------

/// The keys of a flag, from the `i`-th on, then its value.
pub open spec fn sp_set_flag(cx: CtxV, mode: SetFlagMode, keys: Seq<ValueReference>, i: int, acc: Seq<KeyV>, value: ValueReference) -> FlowV<ActV>
    decreases keys.len() - i,
{
    if i >= keys.len() || i < 0 {
        match sp_ref(cx, value, |a: AnyV| cast_prim(a)) {
            FlowV::Done(p) => FlowV::Done(ActV::SetFlag(mode, acc, p)),
            o => relabel(o),
        }
    } else {
        match sp_ref(cx, keys[i], |a: AnyV| cast_key(a)) {
            FlowV::Done(k) => sp_set_flag(cx, mode, keys, i + 1, acc.push(k), value),
            o => relabel(o),
        }
    }
}

/// What evaluating an action gives.
pub open spec fn sp_action(cx: CtxV, e: ActionEntity) -> FlowV<ActV> {
    match e {
        ActionEntity::SendMsg { text, severity, level } => match sp_ref(cx, text, |a: AnyV| cast_prim(a)) {
            FlowV::Done(p) => FlowV::Done(ActV::SendMsg(level, severity, prim_text(p))),
            o => relabel(o),
        },
        ActionEntity::EndThisTest { mode, explaination } => match sp_ref(cx, explaination, |a: AnyV| cast_prim(a)) {
            FlowV::Done(p) => FlowV::Done(ActV::EndThisTest(mode, prim_text(p))),
            o => relabel(o),
        },
        ActionEntity::SetFlag { mode, key, value } => sp_set_flag(cx, mode, key@, 0, Seq::empty(), value),
        ActionEntity::IfThenElse { if_, then_, else_ } => match sp_id(cx, if_.0, |a: AnyV| cast_crit(a)) {
            FlowV::Done(c) => sp_id(cx, if c.fulfilled is Ok { then_.0 } else { else_.0 }, |a: AnyV| cast_action(a)),
            o => relabel(o),
        },
    }
}

fn eval_set_flag(cx: &EvalContext, mode: SetFlagMode, keys: &Vec<ValueReference>, value: &ValueReference) -> (r: Flow<RuntimeAction>)
    ensures
        fmap(r, |a: RuntimeAction| a@) == sp_set_flag(cx@, mode, keys@, 0, Seq::empty(), *value),
{
    let mut acc: Vec<MapKey> = Vec::new();
    let mut i: usize = 0;
    assert(acc@.map_values(|k: MapKey| k@) =~= Seq::<KeyV>::empty());
    while i < keys.len()
        invariant
            i <= keys.len(),
            sp_set_flag(cx@, mode, keys@, 0, Seq::empty(), *value) == sp_set_flag(cx@, mode, keys@, i as int, acc@.map_values(|k: MapKey| k@), *value),
        decreases keys.len() - i,
    {
        let k = match q_ref::<MapKey>(cx, &keys[i]) {
            Flow::Done(x) => x,
            Flow::Catch(e) => return Flow::Catch(e),
            Flow::Need(q) => return Flow::Need(q),
            Flow::Fatal(e) => return Flow::Fatal(e),
        };
        let ghost before = acc@.map_values(|k: MapKey| k@);
        acc.push(k);
        assert(acc@.map_values(|k: MapKey| k@) =~= before.push(k@));
        i = i + 1;
    }
    match q_ref::<PrimitiveValue>(cx, value) {
        Flow::Done(p) => Flow::Done(RuntimeAction::SetFlag(SetFlagAction { mode, key: acc, value: p })),
        Flow::Catch(e) => Flow::Catch(e),
        Flow::Need(q) => Flow::Need(q),
        Flow::Fatal(e) => Flow::Fatal(e),
    }
}

/// Evaluates an action.
pub fn eval_action(cx: &EvalContext, e: &ActionEntity) -> (r: Flow<RuntimeAction>)
    ensures
        fmap(r, |a: RuntimeAction| a@) == sp_action(cx@, *e),
{
    match e {
        ActionEntity::SendMsg { text, severity, level } => match q_ref::<PrimitiveValue>(cx, text) {
            Flow::Done(p) => Flow::Done(RuntimeAction::SendMsg(SendMsgAction { level: *level, severity: *severity, text: p.into_text() })),
            Flow::Catch(e) => Flow::Catch(e),
            Flow::Need(q) => Flow::Need(q),
            Flow::Fatal(e) => Flow::Fatal(e),
        },
        ActionEntity::EndThisTest { mode, explaination } => match q_ref::<PrimitiveValue>(cx, explaination) {
            Flow::Done(p) => Flow::Done(RuntimeAction::EndThisTest(EndThisTestAction { mode: *mode, explaination: p.into_text() })),
            Flow::Catch(e) => Flow::Catch(e),
            Flow::Need(q) => Flow::Need(q),
            Flow::Fatal(e) => Flow::Fatal(e),
        },
        ActionEntity::SetFlag { mode, key, value } => eval_set_flag(cx, *mode, key, value),
        ActionEntity::IfThenElse { if_, then_, else_ } => match q_id::<RuntimeCriterion>(cx, if_.0) {
            Flow::Done(c) => q_id::<RuntimeAction>(cx, if c.is_fulfilled() { then_.0 } else { else_.0 }),
            Flow::Catch(e) => Flow::Catch(e),
            Flow::Need(q) => Flow::Need(q),
            Flow::Fatal(e) => Flow::Fatal(e),
        },
    }
}

} // verus!

verus! {

// ---------------------------------------------------------------------------
// Values: reading, texts, collections and numbers
// ---------------------------------------------------------------------------

/// The key path under which the parameters hold the block counts.
pub open spec fn blockcount_path() -> Seq<KeyV> {
    seq![KeyV::Str(seq!['d', 'o', 'c']), KeyV::Str(seq!['b', 'l', 'o', 'c', 'k', 'c', 'o', 'u', 'n', 't'])]
}

/// Reading data of the run through the question `q`: the answer, as an
/// array or as a mapping.
pub open spec fn sp_read(cx: CtxV, q: QueryV, array: bool) -> FlowV<ValueV> {
    match cx.answer {
        None => FlowV::Need(q),
        Some(AnswerV::Selected(a)) => if array {
            match cast_array(a) {
                Ok(s) => FlowV::Done(ValueV::Array(s)),
                Err(e) => FlowV::Catch(e),
            }
        } else {
            match cast_mapping(a) {
                Ok(v) => FlowV::Done(v),
                Err(e) => FlowV::Catch(e),
            }
        },
        Some(_) => FlowV::Fatal,
    }
}

/// The texts of the parts, from the `i`-th on, appended to `acc`.
pub open spec fn sp_concat(cx: CtxV, parts: Seq<ValueReference>, i: int, acc: Seq<char>) -> FlowV<ValueV>
    decreases parts.len() - i,
{
    if i >= parts.len() || i < 0 {
        FlowV::Done(ValueV::Prim(PrimV::Str(acc)))
    } else {
        match sp_ref(cx, parts[i], |a: AnyV| cast_text(a)) {
            FlowV::Done(t) => sp_concat(cx, parts, i + 1, acc + t),
            o => relabel(o),
        }
    }
}

/// The keys of a mapping as an array of primitives.
pub open spec fn keys_array(es: Seq<(KeyV, ValueV)>) -> Seq<ValueV> {
    Seq::new(es.len(), |i: int| ValueV::Prim(key_prim(es[i].0)))
}

/// A view of a mapping: its keys or its values, in key order.
pub open spec fn sp_view(cx: CtxV, perspective: Seq<char>, mapping: ValueReference) -> FlowV<ValueV> {
    match sp_ref(cx, mapping, |a: AnyV| cast_mapping(a)) {
        FlowV::Done(ValueV::Mapping(es, _)) => if perspective == seq!['k', 'e', 'y', 's'] {
            FlowV::Done(ValueV::Array(keys_array(es)))
        } else if perspective == seq!['v', 'a', 'l', 'u', 'e', 's'] {
            FlowV::Done(ValueV::Array(values_of(es)))
        } else {
            FlowV::Catch(cerr::exotic_unknownPerspective())
        },
        FlowV::Done(_) => FlowV::Fatal,
        o => relabel(o),
    }
}

/// Following the keys, from the `i`-th on, through mappings, starting at
/// `cur`.
pub open spec fn sp_mapitem_walk(cx: CtxV, keys: Seq<ValueReference>, i: int, cur: ValueV) -> FlowV<ValueV>
    decreases keys.len() - i,
{
    if i >= keys.len() || i < 0 {
        FlowV::Done(cur)
    } else {
        match sp_ref(cx, keys[i], |a: AnyV| cast_key(a)) {
            FlowV::Done(k) => match cur {
                ValueV::Mapping(es, d) => match mapping_get(es, d, k) {
                    Ok(n) => sp_mapitem_walk(cx, keys, i + 1, n),
                    Err(_) => FlowV::Catch(cerr::mapping_missingKey()),
                },
                _ => FlowV::Catch(cerr::typing_notMapping()),
            },
            o => relabel(o),
        }
    }
}

/// An item of a mapping, found by a path of keys.
pub open spec fn sp_mapitem(cx: CtxV, mapping: ValueReference, keys: Seq<ValueReference>) -> FlowV<ValueV> {
    match sp_ref(cx, mapping, |a: AnyV| cast_value(a)) {
        FlowV::Done(v) => sp_mapitem_walk(cx, keys, 0, v),
        o => relabel(o),
    }
}

/// The answer to a question whose outcome is a number.
pub open spec fn sp_number(cx: CtxV, task: TaskV) -> FlowV<ValueV> {
    match cx.answer {
        None => FlowV::Need(QueryV::Numeric(task)),
        Some(AnswerV::Number(n)) => FlowV::Done(ValueV::Prim(PrimV::Num(n))),
        Some(_) => FlowV::Fatal,
    }
}

/// A power of integers that fits in an `i64`, with an exponent that fits in
/// a `u32`; else the power is left to the arithmetic of numbers.
pub open spec fn pow_local(l: NumV, r: NumV) -> Option<i64> {
    match (l, r) {
        (NumV::Int(a), NumV::Int(b)) => if 0 <= b <= u32::MAX && fits_i64(int_pow(a as int, b as nat)) {
            Some(int_pow(a as int, b as nat) as i64)
        } else {
            None
        },
        _ => None,
    }
}

/// A binary operation on two numbers.
pub open spec fn sp_binary(cx: CtxV, op: NumericOp, left: ValueReference, right: ValueReference) -> FlowV<ValueV> {
    match sp_ref(cx, left, |a: AnyV| cast_num(a)) {
        FlowV::Done(l) => match sp_ref(cx, right, |a: AnyV| cast_num(a)) {
            FlowV::Done(r) => match (op, pow_local(l, r)) {
                (NumericOp::Pow, Some(x)) => FlowV::Done(ValueV::Prim(PrimV::Num(NumV::Int(x)))),
                _ => sp_number(cx, TaskV::Binary(op, l, r)),
            },
            o => relabel(o),
        },
        o => relabel(o),
    }
}

/// A unary operation on a number; negation is the difference from zero.
pub open spec fn sp_unary(cx: CtxV, op: Option<UnaryOp>, value: ValueReference) -> FlowV<ValueV> {
    match sp_ref(cx, value, |a: AnyV| cast_num(a)) {
        FlowV::Done(n) => match op {
            Some(u) => sp_number(cx, TaskV::Unary(u, n)),
            None => sp_number(cx, TaskV::Binary(NumericOp::Sub, NumV::Int(0), n)),
        },
        o => relabel(o),
    }
}

/// The operations on texts.
#[derive(Debug, PartialEq, Eq, Structural, Clone, Copy)]
pub enum TextOp {
    Upper,
    Lower,
    TrimStart,
    TrimEnd,
    Trim,
}

/// What an operation makes of a text.
pub open spec fn text_op(op: TextOp, t: Seq<char>) -> Seq<char> {
    match op {
        TextOp::Upper => unicode_upper(t),
        TextOp::Lower => unicode_lower(t),
        TextOp::TrimStart => spec_trim_start(t),
        TextOp::TrimEnd => spec_trim_end(t),
        TextOp::Trim => spec_trim(t),
    }
}

/// An operation on a text.
pub open spec fn sp_text_op(cx: CtxV, op: TextOp, value: ValueReference) -> FlowV<ValueV> {
    match sp_ref(cx, value, |a: AnyV| cast_text(a)) {
        FlowV::Done(t) => FlowV::Done(ValueV::Prim(PrimV::Str(text_op(op, t)))),
        o => relabel(o),
    }
}

/// A length as an `i64`, capped at its largest value.
pub open spec fn capped_len(n: nat) -> i64 {
    if n <= i64::MAX {
        n as i64
    } else {
        i64::MAX
    }
}

/// The length of an array, a mapping or a text (in characters).
pub open spec fn sp_length(cx: CtxV, value: ValueReference) -> FlowV<ValueV> {
    match sp_ref(cx, value, |a: AnyV| cast_value(a)) {
        FlowV::Done(v) => match v {
            ValueV::Array(s) => FlowV::Done(ValueV::Prim(PrimV::Num(NumV::Int(capped_len(s.len()))))),
            ValueV::Mapping(es, _) => FlowV::Done(ValueV::Prim(PrimV::Num(NumV::Int(capped_len(es.len()))))),
            ValueV::Prim(PrimV::Str(t)) => FlowV::Done(ValueV::Prim(PrimV::Num(NumV::Int(capped_len(t.len()))))),
            _ => FlowV::Catch(cerr::typing_notIterable()),
        },
        o => relabel(o),
    }
}

/// A conditional value: the branch that the condition selects.
pub open spec fn sp_value_if_then_else(cx: CtxV, if_: u64, then_: ValueReference, else_: ValueReference) -> FlowV<ValueV> {
    match sp_id(cx, if_, |a: AnyV| cast_crit(a)) {
        FlowV::Done(c) => sp_ref(cx, if c.fulfilled is Ok { then_ } else { else_ }, |a: AnyV| cast_value(a)),
        o => relabel(o),
    }
}

/// A value that catches the errors of another one.
pub open spec fn sp_value_catch(cx: CtxV, value: ValueReference, error: cerr, only_if: Option<u64>, dflt: Option<ValueReference>, action: Option<u64>) -> (FlowV<ValueV>, Option<ActV>) {
    match sp_ref(cx, value, |a: AnyV| Ok::<AnyV, cerr>(a)) {
        FlowV::Done(AnyV::Value(v)) => (FlowV::Done(v), None),
        FlowV::Done(a) => sp_catch_error(
            cx,
            match a {
                AnyV::Catchable(e) => e,
                _ => cerr::typing_notValue(),
            },
            error,
            only_if,
            match dflt {
                Some(d) => Some(sp_ref(cx, d, |a: AnyV| cast_value(a))),
                None => None,
            },
            action,
        ),
        o => (relabel(o), None),
    }
}

} // verus!

verus! {

/// Reading a value reference as anything, then casting, is reading it
/// through the cast.
proof fn lemma_ref_cast<T>(cx: CtxV, r: ValueReference, f: spec_fn(AnyV) -> Result<T, cerr>)
    ensures
        match sp_ref(cx, r, |a: AnyV| Ok::<AnyV, cerr>(a)) {
            FlowV::Done(a) => sp_ref(cx, r, f) == match f(a) {
                Ok(x) => FlowV::Done(x),
                Err(e) => FlowV::<T>::Catch(e),
            },
            FlowV::Need(q) => sp_ref(cx, r, f) == FlowV::<T>::Need(q),
            _ => false,
        },
{
}

/// An array value made of the given values.
fn array_value(v: Vec<RuntimeValue>) -> (r: RuntimeValue)
    ensures
        r@ == ValueV::Array(Seq::new(v@.len(), |i: int| v@[i]@)),
{
    let r = RuntimeValue::Comp(MappingOrArray::Array(crate::spec::values::Array(v)));
    assert(r@->Array_0 =~= Seq::new(v@.len(), |i: int| v@[i]@));
    r
}

fn ask_number(cx: &EvalContext, task: NumericTask) -> (r: Flow<RuntimeValue>)
    ensures
        fmap(r, |v: RuntimeValue| v@) == sp_number(cx@, task@),
{
    match cx.answer {
        None => Flow::Need(Query::Numeric(task)),
        Some(Answer::Number(n)) => Flow::Done(RuntimeValue::Prim(PrimitiveValue::Number(n.clone()))),
        Some(_) => Flow::Fatal(FatalError::AnswerMismatch),
    }
}

fn eval_read(cx: &EvalContext, sel: Selector, array: bool) -> (r: Flow<RuntimeValue>)
    ensures
        fmap(r, |v: RuntimeValue| v@) == sp_read(cx@, Query::Selector(sel)@, array),
{
    match cx.answer {
        None => Flow::Need(Query::Selector(sel)),
        Some(Answer::Selected(a)) => match a {
            RuntimeAny::Value(v) => match v {
                RuntimeValue::Comp(MappingOrArray::Array(_)) => if array {
                    Flow::Done(clone_value(v))
                } else {
                    Flow::Catch(cerr::typing_notMapping())
                },
                RuntimeValue::Comp(MappingOrArray::Mapping(_)) => if array {
                    Flow::Catch(cerr::typing_notArray())
                } else {
                    Flow::Done(clone_value(v))
                },
                RuntimeValue::Prim(_) => if array {
                    Flow::Catch(cerr::typing_notArray())
                } else {
                    Flow::Catch(cerr::typing_notMapping())
                },
            },
            RuntimeAny::Catchable(e) => Flow::Catch(*e),
            _ => if array {
                Flow::Catch(cerr::typing_notArray())
            } else {
                Flow::Catch(cerr::typing_notMapping())
            },
        },
        Some(_) => Flow::Fatal(FatalError::AnswerMismatch),
    }
}

fn eval_concat(cx: &EvalContext, parts: &Vec<ValueReference>) -> (r: Flow<RuntimeValue>)
    ensures
        fmap(r, |v: RuntimeValue| v@) == sp_concat(cx@, parts@, 0, Seq::empty()),
{
    let mut s = String::new();
    let mut i: usize = 0;
    while i < parts.len()
        invariant
            i <= parts.len(),
            sp_concat(cx@, parts@, 0, Seq::empty()) == sp_concat(cx@, parts@, i as int, s@),
        decreases parts.len() - i,
    {
        let t = match q_ref::<Text>(cx, &parts[i]) {
            Flow::Done(x) => x,
            Flow::Catch(e) => return Flow::Catch(e),
            Flow::Need(q) => return Flow::Need(q),
            Flow::Fatal(e) => return Flow::Fatal(e),
        };
        s.append(t.as_str());
        i = i + 1;
    }
    Flow::Done(RuntimeValue::Prim(PrimitiveValue::Str(Text(s))))
}

fn eval_view(cx: &EvalContext, perspective: &Text, mapping: &ValueReference) -> (r: Flow<RuntimeValue>)
    ensures
        fmap(r, |v: RuntimeValue| v@) == sp_view(cx@, perspective@, *mapping),
{
    proof {
        lemma_ref_cast(cx@, *mapping, |a: AnyV| cast_mapping(a));
    }
    let a = match q_ref::<RuntimeAny>(cx, mapping) {
        Flow::Done(x) => x,
        Flow::Catch(e) => return Flow::Catch(e),
        Flow::Need(q) => return Flow::Need(q),
        Flow::Fatal(e) => return Flow::Fatal(e),
    };
    match a {
        RuntimeAny::Value(RuntimeValue::Comp(MappingOrArray::Mapping(m))) => {
            proof {
                lemma_comp_view(MappingOrArray::Mapping(m));
            }
            let ghost es = crate::spec::values::entries_view(m.mapping@);
            let keys_lit = Text::from_str("keys");
            let values_lit = Text::from_str("values");
            proof {
                reveal_strlit("keys");
                reveal_strlit("values");
            }
            if perspective.text_eq(&keys_lit) {
                let ks = m.keys();
                let mut out: Vec<RuntimeValue> = Vec::new();
                let mut i: usize = 0;
                while i < ks.len()
                    invariant
                        i <= ks@.len(),
                        ks@.len() == m.mapping@.len(),
                        es == crate::spec::values::entries_view(m.mapping@),
                        forall|j: int| 0 <= j < ks@.len() ==> (#[trigger] ks@[j])@ == m.mapping@[j].0@,
                        out@.len() == i,
                        forall|j: int| 0 <= j < i ==> (#[trigger] out@[j])@ == ValueV::Prim(key_prim(es[j].0)),
                    decreases ks@.len() - i,
                {
                    out.push(RuntimeValue::Prim(ks[i].to_prim()));
                    i = i + 1;
                }
                let r = array_value(out);
                assert(r@->Array_0 =~= keys_array(es));
                assert(keys_lit@ == seq!['k', 'e', 'y', 's']);
                Flow::Done(r)
            } else if perspective.text_eq(&values_lit) {
                let vs = m.values();
                let r = array_value(vs);
                assert(r@->Array_0 =~= values_of(es));
                assert(keys_lit@ == seq!['k', 'e', 'y', 's']);
                assert(values_lit@ == seq!['v', 'a', 'l', 'u', 'e', 's']);
                Flow::Done(r)
            } else {
                assert(keys_lit@ == seq!['k', 'e', 'y', 's']);
                assert(values_lit@ == seq!['v', 'a', 'l', 'u', 'e', 's']);
                Flow::Catch(cerr::exotic_unknownPerspective())
            }
        },
        RuntimeAny::Catchable(e) => Flow::Catch(e),
        _ => Flow::Catch(cerr::typing_notMapping()),
    }
}

fn eval_mapitem(cx: &EvalContext, mapping: &ValueReference, keys: &Vec<ValueReference>) -> (r: Flow<RuntimeValue>)
    ensures
        fmap(r, |v: RuntimeValue| v@) == sp_mapitem(cx@, *mapping, keys@),
{
    let mut cur = match q_ref::<RuntimeValue>(cx, mapping) {
        Flow::Done(x) => x,
        Flow::Catch(e) => return Flow::Catch(e),
        Flow::Need(q) => return Flow::Need(q),
        Flow::Fatal(e) => return Flow::Fatal(e),
    };
    let mut i: usize = 0;
    while i < keys.len()
        invariant
            i <= keys.len(),
            sp_mapitem(cx@, *mapping, keys@) == sp_mapitem_walk(cx@, keys@, i as int, cur@),
        decreases keys.len() - i,
    {
        let k = match q_ref::<MapKey>(cx, &keys[i]) {
            Flow::Done(x) => x,
            Flow::Catch(e) => return Flow::Catch(e),
            Flow::Need(q) => return Flow::Need(q),
            Flow::Fatal(e) => return Flow::Fatal(e),
        };
        let next = match &cur {
            RuntimeValue::Comp(MappingOrArray::Mapping(m)) => {
                proof {
                    lemma_comp_view(MappingOrArray::Mapping(*m));
                }
                match m.get(&k) {
                    Ok(n) => clone_value(n),
                    Err(_) => return Flow::Catch(cerr::mapping_missingKey()),
                }
            },
            _ => return Flow::Catch(cerr::typing_notMapping()),
        };
        cur = next;
        i = i + 1;
    }
    Flow::Done(cur)
}

fn eval_binary(cx: &EvalContext, op: NumericOp, left: &ValueReference, right: &ValueReference) -> (r: Flow<RuntimeValue>)
    ensures
        fmap(r, |v: RuntimeValue| v@) == sp_binary(cx@, op, *left, *right),
{
    let l = match q_ref::<Numeric>(cx, left) {
        Flow::Done(x) => x,
        Flow::Catch(e) => return Flow::Catch(e),
        Flow::Need(q) => return Flow::Need(q),
        Flow::Fatal(e) => return Flow::Fatal(e),
    };
    let r = match q_ref::<Numeric>(cx, right) {
        Flow::Done(x) => x,
        Flow::Catch(e) => return Flow::Catch(e),
        Flow::Need(q) => return Flow::Need(q),
        Flow::Fatal(e) => return Flow::Fatal(e),
    };
    if op == NumericOp::Pow {
        match (&l, &r) {
            (Numeric::Int(a), Numeric::Int(b)) => {
                if 0 <= *b && *b <= 4294967295i64 {
                    match checked_pow_i64(*a, *b as u32) {
                        Some(x) => {
                            return Flow::Done(RuntimeValue::Prim(PrimitiveValue::Number(Numeric::Int(x))));
                        },
                        None => {},
                    }
                }
            },
            _ => {},
        }
    }
    ask_number(cx, NumericTask::Binary { op, left: l, right: r })
}

fn eval_unary(cx: &EvalContext, op: Option<UnaryOp>, value: &ValueReference) -> (r: Flow<RuntimeValue>)
    ensures
        fmap(r, |v: RuntimeValue| v@) == sp_unary(cx@, op, *value),
{
    let n = match q_ref::<Numeric>(cx, value) {
        Flow::Done(x) => x,
        Flow::Catch(e) => return Flow::Catch(e),
        Flow::Need(q) => return Flow::Need(q),
        Flow::Fatal(e) => return Flow::Fatal(e),
    };
    match op {
        Some(u) => ask_number(cx, NumericTask::Unary { op: u, value: n }),
        None => ask_number(cx, NumericTask::Binary { op: NumericOp::Sub, left: Numeric::Int(0), right: n }),
    }
}

fn eval_text_op(cx: &EvalContext, op: TextOp, value: &ValueReference) -> (r: Flow<RuntimeValue>)
    ensures
        fmap(r, |v: RuntimeValue| v@) == sp_text_op(cx@, op, *value),
{
    let t = match q_ref::<Text>(cx, value) {
        Flow::Done(x) => x,
        Flow::Catch(e) => return Flow::Catch(e),
        Flow::Need(q) => return Flow::Need(q),
        Flow::Fatal(e) => return Flow::Fatal(e),
    };
    let out = match op {
        TextOp::Upper => t.to_uppercase(),
        TextOp::Lower => t.to_lowercase(),
        TextOp::TrimStart => t.trim_start(),
        TextOp::TrimEnd => t.trim_end(),
        TextOp::Trim => t.trim(),
    };
    Flow::Done(RuntimeValue::Prim(PrimitiveValue::Str(out)))
}

fn cap_len(n: usize) -> (r: i64)
    ensures
        r == capped_len(n as nat),
{
    if n as u64 <= 9223372036854775807u64 {
        n as i64
    } else {
        9223372036854775807i64
    }
}

fn eval_length(cx: &EvalContext, value: &ValueReference) -> (r: Flow<RuntimeValue>)
    ensures
        fmap(r, |v: RuntimeValue| v@) == sp_length(cx@, *value),
{
    let v = match q_ref::<RuntimeValue>(cx, value) {
        Flow::Done(x) => x,
        Flow::Catch(e) => return Flow::Catch(e),
        Flow::Need(q) => return Flow::Need(q),
        Flow::Fatal(e) => return Flow::Fatal(e),
    };
    let n: usize = match &v {
        RuntimeValue::Comp(MappingOrArray::Array(a)) => {
            proof {
                lemma_comp_view(MappingOrArray::Array(*a));
            }
            a.0.len()
        },
        RuntimeValue::Comp(MappingOrArray::Mapping(m)) => {
            proof {
                lemma_comp_view(MappingOrArray::Mapping(*m));
            }
            m.mapping.len()
        },
        RuntimeValue::Prim(PrimitiveValue::Str(t)) => t.char_count(),
        RuntimeValue::Prim(PrimitiveValue::Number(_)) => return Flow::Catch(cerr::typing_notIterable()),
    };
    Flow::Done(RuntimeValue::Prim(PrimitiveValue::Number(Numeric::Int(cap_len(n)))))
}

fn eval_value_if_then_else(cx: &EvalContext, if_: u64, then_: &ValueReference, else_: &ValueReference) -> (r: Flow<RuntimeValue>)
    ensures
        fmap(r, |v: RuntimeValue| v@) == sp_value_if_then_else(cx@, if_, *then_, *else_),
{
    match q_id::<RuntimeCriterion>(cx, if_) {
        Flow::Done(c) => q_ref::<RuntimeValue>(cx, if c.is_fulfilled() { then_ } else { else_ }),
        Flow::Catch(e) => Flow::Catch(e),
        Flow::Need(q) => Flow::Need(q),
        Flow::Fatal(e) => Flow::Fatal(e),
    }
}

fn eval_value_catch(
    cx: &EvalContext,
    value: &ValueReference,
    error: cerr,
    only_if: Option<EntityId<CriterionEntity>>,
    dflt: &Option<ValueReference>,
    action: Option<EntityId<ActionEntity>>,
) -> (r: (Flow<RuntimeValue>, Option<RuntimeAction>))
    ensures
        ({
            let s = sp_value_catch(
                cx@,
                *value,
                error,
                match only_if { Some(x) => Some(x.0), None => None },
                *dflt,
                match action { Some(x) => Some(x.0), None => None },
            );
            fmap(r.0, |v: RuntimeValue| v@) == s.0 && act_view(r.1) == s.1
        }),
{
    let a = match q_ref::<RuntimeAny>(cx, value) {
        Flow::Done(x) => x,
        Flow::Catch(e) => return (Flow::Catch(e), None),
        Flow::Need(q) => return (Flow::Need(q), None),
        Flow::Fatal(e) => return (Flow::Fatal(e), None),
    };
    let found = match a {
        RuntimeAny::Value(v) => return (Flow::Done(v), None),
        RuntimeAny::Catchable(e) => e,
        _ => cerr::typing_notValue(),
    };
    if !error.contains(found) {
        return (Flow::Catch(found), None);
    }
    match read_only_if(cx, only_if) {
        Flow::Done(ok) => {
            if !ok {
                return (Flow::Catch(found), None);
            }
        },
        Flow::Catch(e) => return (Flow::Catch(e), None),
        Flow::Need(q) => return (Flow::Need(q), None),
        Flow::Fatal(e) => return (Flow::Fatal(e), None),
    }
    let act = match read_action(cx, action) {
        Flow::Done(x) => x,
        Flow::Catch(e) => return (Flow::Catch(e), None),
        Flow::Need(q) => return (Flow::Need(q), None),
        Flow::Fatal(e) => return (Flow::Fatal(e), None),
    };
    let body: Flow<RuntimeValue> = match dflt {
        Some(d) => q_ref::<RuntimeValue>(cx, d),
        None => Flow::Catch(found),
    };
    (body, act)
}

} // verus!

verus! {

// ---------------------------------------------------------------------------
// Values: network requests and captures of regular expressions
// ---------------------------------------------------------------------------

/// The body of a request: the pairs of key and value, from the `i`-th on,
/// each key read as a text and then its value.
pub open spec fn sp_json(cx: CtxV, json: Seq<(ValueReference, ValueReference)>, i: int, acc: Seq<(Seq<char>, ValueV)>) -> FlowV<Seq<(Seq<char>, ValueV)>>
    decreases json.len() - i,
{
    if i >= json.len() || i < 0 {
        FlowV::Done(acc)
    } else {
        match sp_ref(cx, json[i].0, |a: AnyV| cast_text(a)) {
            FlowV::Done(k) => match sp_ref(cx, json[i].1, |a: AnyV| cast_value(a)) {
                FlowV::Done(v) => sp_json(cx, json, i + 1, acc.push((k, v))),
                o => relabel(o),
            },
            o => relabel(o),
        }
    }
}

/// A response as a mapping: its status under the key "status".
pub open spec fn status_mapping(status: u16) -> ValueV {
    ValueV::Mapping(
        seq![(KeyV::Str(seq!['s', 't', 'a', 't', 'u', 's']), ValueV::Prim(PrimV::Num(NumV::Int(status as i64))))],
        None,
    )
}

/// A network request: the route, then (for a post) its body; the response
/// is answered from outside. A status outside the allowed ones (where they
/// are given) is `network_statusDisallowed`.
pub open spec fn sp_network(cx: CtxV, server: Seq<char>, route: ValueReference, method: NetworkMethod, allowed: Option<Seq<u16>>, json: Option<Seq<(ValueReference, ValueReference)>>) -> FlowV<ValueV> {
    match sp_ref(cx, route, |a: AnyV| cast_text(a)) {
        FlowV::Done(rt) => {
            let body: FlowV<NetV> = match method {
                NetworkMethod::Get => FlowV::Done(NetV::Get),
                NetworkMethod::Post => match json {
                    None => FlowV::Done(NetV::Post(None)),
                    Some(j) => match sp_json(cx, j, 0, Seq::empty()) {
                        FlowV::Done(b) => FlowV::Done(NetV::Post(Some(b))),
                        o => relabel(o),
                    },
                },
            };
            match body {
                FlowV::Done(nv) => match cx.answer {
                    None => FlowV::Need(QueryV::Network(server, rt, nv)),
                    Some(AnswerV::Network(Ok(st))) => match allowed {
                        Some(al) => if al.contains(st) {
                            FlowV::Done(status_mapping(st))
                        } else {
                            FlowV::Catch(cerr::network_statusDisallowed())
                        },
                        None => FlowV::Done(status_mapping(st)),
                    },
                    Some(AnswerV::Network(Err(e))) => FlowV::Catch(e),
                    Some(_) => FlowV::Fatal,
                },
                o => relabel(o),
            }
        },
        o => relabel(o),
    }
}

/// The text of a capture group of the match of `p` in `t`: a group given by
/// a non-negative integer or by a name.
pub open spec fn group_capture(p: Seq<char>, t: Seq<char>, g: PrimV) -> Result<Seq<char>, cerr> {
    match g {
        PrimV::Num(NumV::Int(i)) => if 0 <= i <= usize::MAX {
            match regex_capture_index(p, t, i as usize) {
                Some(Some(s)) => Ok(s),
                _ => Err(cerr::regex_noGroup()),
            }
        } else {
            Err(cerr::regex_noGroup())
        },
        PrimV::Str(name) => match regex_capture_name(p, t, name) {
            Some(Some(s)) => Ok(s),
            _ => Err(cerr::regex_noGroup()),
        },
        _ => Err(cerr::regex_noGroup()),
    }
}

/// A value that is a text in which `p` matches.
pub open spec fn has_match(p: Seq<char>, v: ValueV) -> bool {
    match v {
        ValueV::Prim(PrimV::Str(t)) => regex_capture_index(p, t, 0) is Some,
        _ => false,
    }
}

/// The first item, from the `i`-th on, that is a text in which `p` matches.
pub open spec fn first_match_from(p: Seq<char>, items: Seq<ValueV>, i: int) -> Option<int>
    decreases items.len() - i,
{
    if i >= items.len() || i < 0 {
        None
    } else if has_match(p, items[i]) {
        Some(i)
    } else {
        first_match_from(p, items, i + 1)
    }
}

/// The capture group of the first match: in a text, or in the first text of
/// an array in which `p` matches.
pub open spec fn first_capture(p: Seq<char>, v: ValueV, g: PrimV) -> Result<Seq<char>, cerr> {
    match v {
        ValueV::Prim(PrimV::Str(t)) => if has_match(p, v) {
            group_capture(p, t, g)
        } else {
            Err(cerr::regex_noMatch())
        },
        ValueV::Array(items) => match first_match_from(p, items, 0) {
            Some(i) => match items[i] {
                ValueV::Prim(PrimV::Str(t)) => group_capture(p, t, g),
                _ => Err(cerr::regex_noMatch()),
            },
            None => Err(cerr::regex_noMatch()),
        },
        _ => Err(cerr::regex_invalidHaystack()),
    }
}

/// A capture group of a regular expression (the whole match when no group
/// is given).
pub open spec fn sp_first_capture(cx: CtxV, pattern: ValueReference, sup: ValueReference, group: Option<ValueReference>) -> FlowV<ValueV> {
    match sp_ref(cx, pattern, |a: AnyV| cast_text(a)) {
        FlowV::Done(p) => match sp_ref(cx, sup, |a: AnyV| cast_value(a)) {
            FlowV::Done(v) => {
                let g: FlowV<PrimV> = match group {
                    Some(gr) => sp_ref(cx, gr, |a: AnyV| cast_prim(a)),
                    None => FlowV::Done(PrimV::Num(NumV::Int(0))),
                };
                match g {
                    FlowV::Done(gv) => if !regex_valid(p) {
                        FlowV::Catch(cerr::regex_syntax())
                    } else {
                        match first_capture(p, v, gv) {
                            Ok(s) => FlowV::Done(ValueV::Prim(PrimV::Str(s))),
                            Err(e) => FlowV::Catch(e),
                        }
                    },
                    o => relabel(o),
                }
            },
            o => relabel(o),
        },
        o => relabel(o),
    }
}

fn contains_u16(v: &Vec<u16>, x: u16) -> (r: bool)
    ensures
        r == v@.contains(x),
{
    let mut i: usize = 0;
    while i < v.len()
        invariant
            i <= v.len(),
            forall|j: int| 0 <= j < i ==> v@[j] != x,
        decreases v.len() - i,
    {
        if v[i] == x {
            assert(v@[i as int] == x);
            return true;
        }
        i = i + 1;
    }
    false
}

fn eval_network(
    cx: &EvalContext,
    server: &Text,
    route: &ValueReference,
    method: NetworkMethod,
    allowed: &Option<Vec<u16>>,
    json: &Option<Vec<(ValueReference, ValueReference)>>,
) -> (r: Flow<RuntimeValue>)
    ensures
        fmap(r, |v: RuntimeValue| v@) == sp_network(
            cx@,
            server@,
            *route,
            method,
            match allowed { Some(a) => Some(a@), None => None },
            match json { Some(j) => Some(j@), None => None },
        ),
{
    let rt = match q_ref::<Text>(cx, route) {
        Flow::Done(x) => x,
        Flow::Catch(e) => return Flow::Catch(e),
        Flow::Need(q) => return Flow::Need(q),
        Flow::Fatal(e) => return Flow::Fatal(e),
    };
    let specific = match method {
        NetworkMethod::Get => InnerNetworkRequest::Get,
        NetworkMethod::Post => match json {
            None => InnerNetworkRequest::Post { json: None },
            Some(j) => {
                let mut body: Vec<(Text, RuntimeValue)> = Vec::new();
                let mut i: usize = 0;
                assert(json_view(body) =~= Seq::<(Seq<char>, ValueV)>::empty());
                while i < j.len()
                    invariant
                        i <= j.len(),
                        sp_json(cx@, j@, 0, Seq::empty()) == sp_json(cx@, j@, i as int, json_view(body)),
                        method == NetworkMethod::Post,
                        *json == Some(*j),
                        sp_ref(cx@, *route, |a: AnyV| cast_text(a)) == FlowV::Done(rt@),
                    decreases j.len() - i,
                {
                    let k = match q_ref::<Text>(cx, &j[i].0) {
                        Flow::Done(x) => x,
                        Flow::Catch(e) => return Flow::Catch(e),
                        Flow::Need(q) => return Flow::Need(q),
                        Flow::Fatal(e) => return Flow::Fatal(e),
                    };
                    let v = match q_ref::<RuntimeValue>(cx, &j[i].1) {
                        Flow::Done(x) => x,
                        Flow::Catch(e) => return Flow::Catch(e),
                        Flow::Need(q) => return Flow::Need(q),
                        Flow::Fatal(e) => return Flow::Fatal(e),
                    };
                    let ghost before = json_view(body);
                    body.push((k, v));
                    assert(json_view(body) =~= before.push((k@, v@)));
                    i = i + 1;
                }
                InnerNetworkRequest::Post { json: Some(body) }
            },
        },
    };
    match cx.answer {
        None => Flow::Need(Query::Network(NetworkRequest { server: server.clone(), route: rt, specific })),
        Some(Answer::Network(Ok(resp))) => {
            let st = resp.status;
            match allowed {
                Some(al) => {
                    if !contains_u16(al, st) {
                        return Flow::Catch(cerr::network_statusDisallowed());
                    }
                },
                None => {},
            }
            let m = resp.to_mapping();
            proof {
                lemma_comp_view(MappingOrArray::Mapping(m));
            }
            Flow::Done(RuntimeValue::Comp(MappingOrArray::Mapping(m)))
        },
        Some(Answer::Network(Err(e))) => Flow::Catch(*e),
        Some(_) => Flow::Fatal(FatalError::AnswerMismatch),
    }
}

fn group_capture_exec(c: &CompiledPattern, t: &Text, g: &PrimitiveValue) -> (r: Result<Text, cerr>)
    ensures
        match r {
            Ok(s) => group_capture(c.pattern_view(), t@, g@) == Ok::<Seq<char>, cerr>(s@),
            Err(e) => group_capture(c.pattern_view(), t@, g@) == Err::<Seq<char>, cerr>(e),
        },
{
    let found = match g {
        PrimitiveValue::Number(Numeric::Int(i)) => {
            if *i >= 0 && (*i as u64) <= (usize::MAX as u64) {
                regex_group_by_index(c, t, *i as usize)
            } else {
                return Err(cerr::regex_noGroup());
            }
        },
        PrimitiveValue::Str(name) => regex_group_by_name(c, t, name),
        _ => return Err(cerr::regex_noGroup()),
    };
    match found {
        Some(Some(s)) => Ok(Text(s)),
        _ => Err(cerr::regex_noGroup()),
    }
}

fn has_match_exec(c: &CompiledPattern, t: &Text) -> (r: bool)
    ensures
        r == (regex_capture_index(c.pattern_view(), t@, 0) is Some),
{
    regex_group_by_index(c, t, 0).is_some()
}

fn first_capture_exec(c: &CompiledPattern, v: &RuntimeValue, g: &PrimitiveValue) -> (r: Result<Text, cerr>)
    ensures
        match r {
            Ok(s) => first_capture(c.pattern_view(), v@, g@) == Ok::<Seq<char>, cerr>(s@),
            Err(e) => first_capture(c.pattern_view(), v@, g@) == Err::<Seq<char>, cerr>(e),
        },
{
    let ghost p = c.pattern_view();
    match v {
        RuntimeValue::Prim(PrimitiveValue::Str(t)) => {
            if has_match_exec(c, t) {
                group_capture_exec(c, t, g)
            } else {
                Err(cerr::regex_noMatch())
            }
        },
        RuntimeValue::Prim(PrimitiveValue::Number(_)) => Err(cerr::regex_invalidHaystack()),
        RuntimeValue::Comp(MappingOrArray::Mapping(_)) => Err(cerr::regex_invalidHaystack()),
        RuntimeValue::Comp(MappingOrArray::Array(a)) => {
            let ghost items = v@->Array_0;
            let mut i: usize = 0;
            while i < a.0.len()
                invariant
                    i <= a.0@.len(),
                    items.len() == a.0@.len(),
                    items == v@->Array_0,
                    *v == RuntimeValue::Comp(MappingOrArray::Array(*a)),
                    p == c.pattern_view(),
                    first_match_from(p, items, 0) == first_match_from(p, items, i as int),
                decreases a.0@.len() - i,
            {
                assert(items[i as int] == a.0@[i as int]@);
                match &a.0[i] {
                    RuntimeValue::Prim(PrimitiveValue::Str(t)) => {
                        if has_match_exec(c, t) {
                            return group_capture_exec(c, t, g);
                        }
                    },
                    _ => {},
                }
                i = i + 1;
            }
            Err(cerr::regex_noMatch())
        },
    }
}

fn eval_first_capture(cx: &EvalContext, pattern: &ValueReference, sup: &ValueReference, group: &Option<ValueReference>) -> (r: Flow<RuntimeValue>)
    ensures
        fmap(r, |v: RuntimeValue| v@) == sp_first_capture(cx@, *pattern, *sup, *group),
{
    let p = match q_ref::<Text>(cx, pattern) {
        Flow::Done(x) => x,
        Flow::Catch(e) => return Flow::Catch(e),
        Flow::Need(q) => return Flow::Need(q),
        Flow::Fatal(e) => return Flow::Fatal(e),
    };
    let v = match q_ref::<RuntimeValue>(cx, sup) {
        Flow::Done(x) => x,
        Flow::Catch(e) => return Flow::Catch(e),
        Flow::Need(q) => return Flow::Need(q),
        Flow::Fatal(e) => return Flow::Fatal(e),
    };
    let g = match group {
        Some(gr) => match q_ref::<PrimitiveValue>(cx, gr) {
            Flow::Done(x) => x,
            Flow::Catch(e) => return Flow::Catch(e),
            Flow::Need(q) => return Flow::Need(q),
            Flow::Fatal(e) => return Flow::Fatal(e),
        },
        None => PrimitiveValue::Number(Numeric::Int(0)),
    };
    let c = match compile_regex(&p) {
        Some(c) => c,
        None => return Flow::Catch(cerr::regex_syntax()),
    };
    match first_capture_exec(&c, &v, &g) {
        Ok(s) => Flow::Done(RuntimeValue::Prim(PrimitiveValue::Str(s))),
        Err(e) => Flow::Catch(e),
    }
}

} // verus!

verus! {

// ---------------------------------------------------------------------------
// Values: all kinds, and entities
// ---------------------------------------------------------------------------

/// What evaluating a value gives, and the action a catch hands on.
pub open spec fn sp_value(cx: CtxV, e: ValueEntity) -> (FlowV<ValueV>, Option<ActV>) {
    match e {
        ValueEntity::Lit { value } => (FlowV::Done(ValueV::Prim(value@)), None),
        ValueEntity::Concat { a } => (sp_concat(cx, a@, 0, Seq::empty()), None),
        ValueEntity::ReadInput {  } => (sp_read(cx, QueryV::Selector(Coremapping::Input, None), true), None),
        ValueEntity::ReadOutput {  } => (sp_read(cx, QueryV::Selector(Coremapping::Output, None), true), None),
        ValueEntity::ReadRandoms {  } => (sp_read(cx, QueryV::Selector(Coremapping::Randoms, None), true), None),
        ValueEntity::ReadLists {  } => (sp_read(cx, QueryV::Selector(Coremapping::Lists, None), false), None),
        ValueEntity::ReadVariables {  } => (sp_read(cx, QueryV::Selector(Coremapping::Variables, None), false), None),
        ValueEntity::ReadParam {  } => (sp_read(cx, QueryV::Selector(Coremapping::Param, None), false), None),
        ValueEntity::ReadBlockcount {  } => (sp_read(cx, QueryV::Selector(Coremapping::Param, Some(blockcount_path())), false), None),
        ValueEntity::NetworkRequest { server, route, method, allowed_status, json } => (sp_network(
            cx,
            server@,
            route,
            method,
            match allowed_status { Some(a) => Some(a@), None => None },
            match json { Some(j) => Some(j@), None => None },
        ), None),
        ValueEntity::View { perspective, mapping } => (sp_view(cx, perspective@, mapping), None),
        ValueEntity::Mapitem { mapping, keys } => (sp_mapitem(cx, mapping, keys@), None),
        ValueEntity::Add { left, right } => (sp_binary(cx, NumericOp::Add, left, right), None),
        ValueEntity::Sub { left, right } => (sp_binary(cx, NumericOp::Sub, left, right), None),
        ValueEntity::Mul { left, right } => (sp_binary(cx, NumericOp::Mul, left, right), None),
        ValueEntity::Truediv { left, right } => (sp_binary(cx, NumericOp::Truediv, left, right), None),
        ValueEntity::Floordiv { left, right } => (sp_binary(cx, NumericOp::Floordiv, left, right), None),
        ValueEntity::Mod { left, right } => (sp_binary(cx, NumericOp::Mod, left, right), None),
        ValueEntity::Pow { left, right } => (sp_binary(cx, NumericOp::Pow, left, right), None),
        ValueEntity::Neg { value } => (sp_unary(cx, None, value), None),
        ValueEntity::Floor { value } => (sp_unary(cx, Some(UnaryOp::Floor), value), None),
        ValueEntity::Ceil { value } => (sp_unary(cx, Some(UnaryOp::Ceil), value), None),
        ValueEntity::Round { value } => (sp_unary(cx, Some(UnaryOp::Round), value), None),
        ValueEntity::Abs { value } => (sp_unary(cx, Some(UnaryOp::Abs), value), None),
        ValueEntity::FirstCaptureOfRegex { pattern, sup, group } => (sp_first_capture(cx, pattern, sup, group), None),
        ValueEntity::Catch { value, error, only_if, default_value, action } => sp_value_catch(
            cx,
            value,
            error,
            match only_if { Some(x) => Some(x.0), None => None },
            default_value,
            match action { Some(x) => Some(x.0), None => None },
        ),
        ValueEntity::ToUpper { value } => (sp_text_op(cx, TextOp::Upper, value), None),
        ValueEntity::ToLower { value } => (sp_text_op(cx, TextOp::Lower, value), None),
        ValueEntity::TrimStart { value } => (sp_text_op(cx, TextOp::TrimStart, value), None),
        ValueEntity::TrimEnd { value } => (sp_text_op(cx, TextOp::TrimEnd, value), None),
        ValueEntity::Trim { value } => (sp_text_op(cx, TextOp::Trim, value), None),
        ValueEntity::IfThenElse { if_, then_, else_ } => (sp_value_if_then_else(cx, if_.0, then_, else_), None),
        ValueEntity::Length { value } => (sp_length(cx, value), None),
    }
}

fn blockcount_selector() -> (r: Selector)
    ensures
        Query::Selector(r)@ == QueryV::Selector(Coremapping::Param, Some(blockcount_path())),
{
    let doc = Text::from_str("doc");
    let bc = Text::from_str("blockcount");
    proof {
        reveal_strlit("doc");
        reveal_strlit("blockcount");
    }
    assert(doc@ == seq!['d', 'o', 'c']);
    assert(bc@ == seq!['b', 'l', 'o', 'c', 'k', 'c', 'o', 'u', 'n', 't']);
    let mut key: Vec<MapKey> = Vec::new();
    key.push(MapKey::Str(doc));
    key.push(MapKey::Str(bc));
    assert(key@.map_values(|k: MapKey| k@) =~= blockcount_path());
    Selector::CoremapItem { mapping: Coremapping::Param, key }
}

/// Evaluates a value.
pub fn eval_value(cx: &EvalContext, e: &ValueEntity) -> (r: (Flow<RuntimeValue>, Option<RuntimeAction>))
    ensures
        fmap(r.0, |v: RuntimeValue| v@) == sp_value(cx@, *e).0,
        act_view(r.1) == sp_value(cx@, *e).1,
{
    match e {
        ValueEntity::Lit { value } => (Flow::Done(RuntimeValue::Prim(value.clone())), None),
        ValueEntity::Concat { a } => (eval_concat(cx, a), None),
        ValueEntity::ReadInput {  } => (eval_read(cx, Selector::Coremap(Coremapping::Input), true), None),
        ValueEntity::ReadOutput {  } => (eval_read(cx, Selector::Coremap(Coremapping::Output), true), None),
        ValueEntity::ReadRandoms {  } => (eval_read(cx, Selector::Coremap(Coremapping::Randoms), true), None),
        ValueEntity::ReadLists {  } => (eval_read(cx, Selector::Coremap(Coremapping::Lists), false), None),
        ValueEntity::ReadVariables {  } => (eval_read(cx, Selector::Coremap(Coremapping::Variables), false), None),
        ValueEntity::ReadParam {  } => (eval_read(cx, Selector::Coremap(Coremapping::Param), false), None),
        ValueEntity::ReadBlockcount {  } => (eval_read(cx, blockcount_selector(), false), None),
        ValueEntity::NetworkRequest { server, route, method, allowed_status, json } => (eval_network(cx, server, route, *method, allowed_status, json), None),
        ValueEntity::View { perspective, mapping } => (eval_view(cx, perspective, mapping), None),
        ValueEntity::Mapitem { mapping, keys } => (eval_mapitem(cx, mapping, keys), None),
        ValueEntity::Add { left, right } => (eval_binary(cx, NumericOp::Add, left, right), None),
        ValueEntity::Sub { left, right } => (eval_binary(cx, NumericOp::Sub, left, right), None),
        ValueEntity::Mul { left, right } => (eval_binary(cx, NumericOp::Mul, left, right), None),
        ValueEntity::Truediv { left, right } => (eval_binary(cx, NumericOp::Truediv, left, right), None),
        ValueEntity::Floordiv { left, right } => (eval_binary(cx, NumericOp::Floordiv, left, right), None),
        ValueEntity::Mod { left, right } => (eval_binary(cx, NumericOp::Mod, left, right), None),
        ValueEntity::Pow { left, right } => (eval_binary(cx, NumericOp::Pow, left, right), None),
        ValueEntity::Neg { value } => (eval_unary(cx, None, value), None),
        ValueEntity::Floor { value } => (eval_unary(cx, Some(UnaryOp::Floor), value), None),
        ValueEntity::Ceil { value } => (eval_unary(cx, Some(UnaryOp::Ceil), value), None),
        ValueEntity::Round { value } => (eval_unary(cx, Some(UnaryOp::Round), value), None),
        ValueEntity::Abs { value } => (eval_unary(cx, Some(UnaryOp::Abs), value), None),
        ValueEntity::FirstCaptureOfRegex { pattern, sup, group } => (eval_first_capture(cx, pattern, sup, group), None),
        ValueEntity::Catch { value, error, only_if, default_value, action } => eval_value_catch(
            cx,
            value,
            *error,
            *only_if,
            default_value,
            *action,
        ),
        ValueEntity::ToUpper { value } => (eval_text_op(cx, TextOp::Upper, value), None),
        ValueEntity::ToLower { value } => (eval_text_op(cx, TextOp::Lower, value), None),
        ValueEntity::TrimStart { value } => (eval_text_op(cx, TextOp::TrimStart, value), None),
        ValueEntity::TrimEnd { value } => (eval_text_op(cx, TextOp::TrimEnd, value), None),
        ValueEntity::Trim { value } => (eval_text_op(cx, TextOp::Trim, value), None),
        ValueEntity::IfThenElse { if_, then_, else_ } => (eval_value_if_then_else(cx, if_.0, then_, else_), None),
        ValueEntity::Length { value } => (eval_length(cx, value), None),
    }
}

/// An outcome with its result seen through `g`.
pub open spec fn map_flow<A, B>(f: FlowV<A>, g: spec_fn(A) -> B) -> FlowV<B> {
    match f {
        FlowV::Done(x) => FlowV::Done(g(x)),
        FlowV::Catch(e) => FlowV::Catch(e),
        FlowV::Need(q) => FlowV::Need(q),
        FlowV::Fatal => FlowV::Fatal,
    }
}

/// What evaluating an entity gives, and the action that a catch hands on
/// with it.
pub open spec fn sp_eval(cx: CtxV, e: Entity) -> (FlowV<AnyV>, Option<ActV>) {
    match e {
        Entity::Criterion(c) => {
            let r = sp_criterion(cx, c);
            (map_flow(r.0, |x: CritV| AnyV::Criterion(x)), r.1)
        },
        Entity::Action(a) => (map_flow(sp_action(cx, a), |x: ActV| AnyV::Action(x)), None),
        Entity::Value(v) => {
            let r = sp_value(cx, v);
            (map_flow(r.0, |x: ValueV| AnyV::Value(x)), r.1)
        },
    }
}

/// Evaluates an entity: what it gives (or the error or question it ends
/// with), and the action that a catch hands on with it.
pub fn evaluate(cx: &EvalContext, e: &Entity) -> (r: (Flow<RuntimeAny>, Option<RuntimeAction>))
    ensures
        fmap(r.0, |a: RuntimeAny| a@) == sp_eval(cx@, *e).0,
        act_view(r.1) == sp_eval(cx@, *e).1,
{
    match e {
        Entity::Criterion(c) => {
            let (f, act) = eval_criterion(cx, c);
            let out = match f {
                Flow::Done(x) => Flow::Done(RuntimeAny::Criterion(x)),
                Flow::Catch(e) => Flow::Catch(e),
                Flow::Need(q) => Flow::Need(q),
                Flow::Fatal(e) => Flow::Fatal(e),
            };
            (out, act)
        },
        Entity::Action(a) => {
            let out = match eval_action(cx, a) {
                Flow::Done(x) => Flow::Done(RuntimeAny::Action(x)),
                Flow::Catch(e) => Flow::Catch(e),
                Flow::Need(q) => Flow::Need(q),
                Flow::Fatal(e) => Flow::Fatal(e),
            };
            (out, None)
        },
        Entity::Value(v) => {
            let (f, act) = eval_value(cx, v);
            let out = match f {
                Flow::Done(x) => Flow::Done(RuntimeAny::Value(x)),
                Flow::Catch(e) => Flow::Catch(e),
                Flow::Need(q) => Flow::Need(q),
                Flow::Fatal(e) => Flow::Fatal(e),
            };
            (out, act)
        },
    }
}

/// The capabilities that evaluating an entity needs: those of an action,
/// and those of the data that a read goes through.
pub open spec fn entity_features(e: Entity) -> Features {
    match e {
        Entity::Action(a) => action_features(a),
        Entity::Value(ValueEntity::ReadInput {  }) => coremapping_features(Coremapping::Input),
        Entity::Value(ValueEntity::ReadOutput {  }) => coremapping_features(Coremapping::Output),
        Entity::Value(ValueEntity::ReadRandoms {  }) => coremapping_features(Coremapping::Randoms),
        Entity::Value(ValueEntity::ReadLists {  }) => coremapping_features(Coremapping::Lists),
        Entity::Value(ValueEntity::ReadVariables {  }) => coremapping_features(Coremapping::Variables),
        Entity::Value(ValueEntity::ReadParam {  }) => coremapping_features(Coremapping::Param),
        Entity::Value(ValueEntity::ReadBlockcount {  }) => coremapping_features(Coremapping::Param),
        _ => Features::empty(),
    }
}

/// The capabilities that evaluating an entity needs.
pub fn required_features_of(e: &Entity) -> (r: Features)
    ensures
        r == entity_features(*e),
{
    match e {
        Entity::Action(a) => a.required_features(),
        Entity::Value(ValueEntity::ReadInput {  }) => Coremapping::Input.required_features(),
        Entity::Value(ValueEntity::ReadOutput {  }) => Coremapping::Output.required_features(),
        Entity::Value(ValueEntity::ReadRandoms {  }) => Coremapping::Randoms.required_features(),
        Entity::Value(ValueEntity::ReadLists {  }) => Coremapping::Lists.required_features(),
        Entity::Value(ValueEntity::ReadVariables {  }) => Coremapping::Variables.required_features(),
        Entity::Value(ValueEntity::ReadParam {  }) => Coremapping::Param.required_features(),
        Entity::Value(ValueEntity::ReadBlockcount {  }) => Coremapping::Param.required_features(),
        _ => Features::empty(),
    }
}

} // verus!

//! The evaluation of one entry point of a specification, step by step.
//!
//! An evaluation keeps a stack of the entities it is working on. A step
//! looks at the entity on top: if its value is known, the entity leaves the
//! stack; else the entity is evaluated. When that needs the value of another
//! entity, that entity is pushed (a cycle is a fatal error). When it needs
//! data from outside (data of the run, a network response, an operation on
//! numbers), the step hands the question out, and the caller gives the
//! answer back with `provide_answer`. The first error that ends the
//! evaluation (a fatal one, or an action that ends the test) stays.
use vstd::prelude::*;

use core::marker::PhantomData;
use std::collections::BTreeMap;

use crate::catchable::cerr;
use crate::features::Features;
use crate::spec::entities::{Coremapping, EndThisTestMode, Entity};
use crate::spec::eval::{
    Answer, AnswerV, CtxV, EvalContext, FlowV, Flow, Query, QueryV, SpecializeFrom,
    entity_features, evaluate, required_features_of, sp_eval,
};
use crate::spec::runtime::{
    ActV, AnyV, EndThisTestAction, FatalError, RuntimeAction, RuntimeAny,
};
use crate::spec::values::KeyV;

verus! {

// ---------------------------------------------------------------------------
// Types
// ---------------------------------------------------------------------------

/// Marks an evaluation that may still take steps.
pub struct EvaluationRunning(());

/// Marks an evaluation that ran to its end, where ending the test early
/// counts as an error.
pub struct EvaluationFinished(());

/// Marks an evaluation that ran to its end or was ended early by an action.
pub struct EvaluationFinishedOrCancelled(());

/// The entry point is not among the entities.
#[derive(Debug, PartialEq, Eq, Structural, Clone, Copy)]
pub struct EntryPointMissing(pub u64);

/// Why an evaluation stopped early without a fatal error.
#[derive(Debug)]
pub enum StopEval {
    EndTest(EndThisTestAction),
}

/// What ends an evaluation before its value is known.
#[derive(Debug)]
pub enum AnyEvalTermination {
    Fatal(FatalError),
    End(StopEval),
}

/// An error in reading the value of an evaluation; `Extra` is what an early
/// end of the test is reported as.
#[derive(Debug)]
pub enum SingleEvaluationError<Extra> {
    EntryPoint(EntryPointMissing),
    Cerr(cerr),
    Fatal(FatalError),
    Extra(Extra),
}

/// The value of an evaluation, or the early end of the test.
#[derive(Debug)]
pub enum EndOrValue<T> {
    End(StopEval),
    Value(T),
}

/// The reading of a value failed: the value is a catchable error, or the
/// evaluation was ended.
#[derive(Debug)]
pub enum ValueError {
    Catchable(cerr),
    Termination(AnyEvalTermination),
}

/// What a step did.
#[derive(Debug)]
pub enum Step {
    /// The step made progress; there is more to do.
    Continue,
    /// There is nothing left to do.
    Finished,
    /// The entity on top needs this answered before it can go on.
    Ask(Query),
}

/// The evaluation of one entry point of a set of entities.
pub struct SingleEvaluation<'e, Status> {
    entities: &'e BTreeMap<u64, Entity>,
    entry_point: u64,
    allowed_features: Features,
    values: BTreeMap<u64, RuntimeAny>,
    answers: BTreeMap<u64, Answer>,
    id_stack: Vec<u64>,
    actions: Vec<RuntimeAction>,
    status: Result<bool, AnyEvalTermination>,
    used_features: Features,
    marker: PhantomData<Status>,
}

// ---------------------------------------------------------------------------
// Models
// ---------------------------------------------------------------------------

/// Model of a fatal error.
pub enum FatalV {
    FeatureMissmatch(u32, u32),
    SelectorNotAvailable(Coremapping, Option<Seq<KeyV>>),
    EntityNotFound(u64),
    CyclicIdReferences(u64),
    AnswerMismatch,
}

/// Model of what ends an evaluation.
pub enum TermV {
    Fatal(FatalV),
    End(EndThisTestMode, Seq<char>),
}

/// Model of a step.
pub enum StepV {
    Continue,
    Finished,
    Ask(QueryV),
}

/// Model of the state of an evaluation.
pub struct EvalStateV {
    pub values: Map<u64, AnyV>,
    pub answers: Map<u64, AnswerV>,
    pub stack: Seq<u64>,
    pub actions: Seq<ActV>,
    pub status: Result<bool, TermV>,
    pub used: u32,
}

impl View for FatalError {
    type V = FatalV;

    open spec fn view(&self) -> FatalV {
        match self {
            FatalError::FeatureMissmatch { required, provided } => FatalV::FeatureMissmatch(required.0, provided.0),
            FatalError::RequestedSelectorValueNotAvailable(s) => match Query::Selector(*s)@ {
                QueryV::Selector(m, p) => FatalV::SelectorNotAvailable(m, p),
                _ => FatalV::AnswerMismatch,
            },
            FatalError::EntityNotFound(id) => FatalV::EntityNotFound(*id),
            FatalError::CyclicIdReferences(id) => FatalV::CyclicIdReferences(*id),
            FatalError::AnswerMismatch => FatalV::AnswerMismatch,
        }
    }
}

impl View for AnyEvalTermination {
    type V = TermV;

    open spec fn view(&self) -> TermV {
        match self {
            AnyEvalTermination::Fatal(f) => TermV::Fatal(f@),
            AnyEvalTermination::End(StopEval::EndTest(a)) => TermV::End(a.mode, a.explaination@),
        }
    }
}

impl View for Step {
    type V = StepV;

    open spec fn view(&self) -> StepV {
        match self {
            Step::Continue => StepV::Continue,
            Step::Finished => StepV::Finished,
            Step::Ask(q) => StepV::Ask(q@),
        }
    }
}

/// The model of a step's outcome.
pub open spec fn step_result_view(r: Result<Step, AnyEvalTermination>) -> Result<StepV, TermV> {
    match r {
        Ok(s) => Ok(s@),
        Err(t) => Err(t@),
    }
}

/// The model of the status of an evaluation.
pub open spec fn status_view(s: Result<bool, AnyEvalTermination>) -> Result<bool, TermV> {
    match s {
        Ok(b) => Ok(b),
        Err(t) => Err(t@),
    }
}

impl<'e, Status> View for SingleEvaluation<'e, Status> {
    type V = EvalStateV;

    closed spec fn view(&self) -> EvalStateV {
        EvalStateV {
            values: self.values@.map_values(|a: RuntimeAny| a@),
            answers: self.answers@.map_values(|a: Answer| a@),
            stack: self.id_stack@,
            actions: self.actions@.map_values(|a: RuntimeAction| a@),
            status: status_view(self.status),
            used: self.used_features.0,
        }
    }
}

// ---------------------------------------------------------------------------
// The step
// ---------------------------------------------------------------------------

/// Whether the allowed capabilities cover the used ones.
pub open spec fn allows(allowed: u32, used: u32) -> bool {
    allowed & used == used
}

/// The answer given for an entity, if any.
pub open spec fn answer_for(s: EvalStateV, id: u64) -> Option<AnswerV> {
    if s.answers.contains_key(id) {
        Some(s.answers[id])
    } else {
        None
    }
}

/// An optional action as a sequence.
pub open spec fn opt_seq(a: Option<ActV>) -> Seq<ActV> {
    match a {
        Some(x) => seq![x],
        None => Seq::empty(),
    }
}

/// One step on a state whose status is not an error: the new state (its
/// status aside) and the outcome.
pub open spec fn core_step(s: EvalStateV, ents: Map<u64, Entity>, allowed: u32) -> (EvalStateV, Result<StepV, TermV>) {
    if s.stack.len() == 0 {
        (s, Ok(StepV::Finished))
    } else {
        let cur = s.stack.last();
        if s.values.contains_key(cur) {
            (EvalStateV { stack: s.stack.drop_last(), ..s }, Ok(StepV::Continue))
        } else if !ents.contains_key(cur) {
            (s, Err(TermV::Fatal(FatalV::EntityNotFound(cur))))
        } else {
            let e = ents[cur];
            let r = sp_eval(CtxV { values: s.values, answer: answer_for(s, cur) }, e);
            let used2 = s.used | entity_features(e).0;
            match r.0 {
                FlowV::Done(v) => {
                    let s2 = EvalStateV { used: used2, actions: s.actions + opt_seq(r.1), ..s };
                    if !allows(allowed, used2) {
                        (s2, Err(TermV::Fatal(FatalV::FeatureMissmatch(used2, allowed))))
                    } else {
                        match r.1 {
                            Some(ActV::EndThisTest(m, t)) => (s2, Err(TermV::End(m, t))),
                            _ => (
                                EvalStateV {
                                    values: s.values.insert(cur, v),
                                    answers: s.answers.remove(cur),
                                    ..s2
                                },
                                Ok(StepV::Continue),
                            ),
                        }
                    }
                },
                FlowV::Catch(err) => (
                    EvalStateV {
                        values: s.values.insert(cur, AnyV::Catchable(err)),
                        answers: s.answers.remove(cur),
                        ..s
                    },
                    Ok(StepV::Continue),
                ),
                FlowV::Need(QueryV::Entity(id)) => if s.stack.contains(id) {
                    (s, Err(TermV::Fatal(FatalV::CyclicIdReferences(id))))
                } else {
                    (EvalStateV { stack: s.stack.push(id), ..s }, Ok(StepV::Continue))
                },
                FlowV::Need(QueryV::Selector(m, p)) => {
                    let s2 = EvalStateV { used: used2, ..s };
                    if !allows(allowed, used2) {
                        (s2, Err(TermV::Fatal(FatalV::FeatureMissmatch(used2, allowed))))
                    } else {
                        (s2, Ok(StepV::Ask(QueryV::Selector(m, p))))
                    }
                },
                FlowV::Need(q) => (s, Ok(StepV::Ask(q))),
                FlowV::Fatal => (s, Err(TermV::Fatal(FatalV::AnswerMismatch))),
            }
        }
    }
}

/// One step: nothing happens once the evaluation ended with an error; else
/// the status becomes whether there was something to do, or the error.
pub open spec fn step_spec(s: EvalStateV, ents: Map<u64, Entity>, allowed: u32) -> (EvalStateV, Result<StepV, TermV>) {
    match s.status {
        Err(t) => (s, Err(t)),
        Ok(_) => {
            let (s2, r) = core_step(s, ents, allowed);
            (
                EvalStateV {
                    status: match r {
                        Ok(StepV::Finished) => Ok(false),
                        Ok(_) => Ok(true),
                        Err(t) => Err(t),
                    },
                    ..s2
                },
                r,
            )
        },
    }
}


// ---------------------------------------------------------------------------
// What every step keeps
// ---------------------------------------------------------------------------

/// Once an evaluation ended with an error, a step changes nothing and
/// reports the same error.
pub proof fn lemma_termination_is_final(s: EvalStateV, ents: Map<u64, Entity>, allowed: u32)
    requires
        s.status is Err,
    ensures
        step_spec(s, ents, allowed).0 == s,
        step_spec(s, ents, allowed).1 == Err::<StepV, TermV>(s.status->Err_0),
{
}

/// A step never forgets or changes the value of an entity: values are only
/// added.
pub proof fn lemma_values_only_grow(s: EvalStateV, ents: Map<u64, Entity>, allowed: u32, id: u64)
    requires
        s.values.contains_key(id),
    ensures
        step_spec(s, ents, allowed).0.values.contains_key(id),
        step_spec(s, ents, allowed).0.values[id] == s.values[id],
{
}

/// A step only appends to the actions.
pub proof fn lemma_actions_only_grow(s: EvalStateV, ents: Map<u64, Entity>, allowed: u32)
    ensures
        s.actions.len() <= step_spec(s, ents, allowed).0.actions.len(),
        step_spec(s, ents, allowed).0.actions.subrange(0, s.actions.len() as int) == s.actions,
{
    let s2 = step_spec(s, ents, allowed).0;
    assert(s2.actions.subrange(0, s.actions.len() as int) =~= s.actions);
}

/// Whether no entity is twice on the stack.
pub open spec fn stack_distinct(stack: Seq<u64>) -> bool {
    forall|i: int, j: int| 0 <= i < j < stack.len() ==> stack[i] != stack[j]
}

/// An entity is never twice on the stack: a reference back to an entity
/// on it is a cycle, which ends the evaluation.
pub proof fn lemma_stack_stays_distinct(s: EvalStateV, ents: Map<u64, Entity>, allowed: u32)
    requires
        stack_distinct(s.stack),
    ensures
        stack_distinct(step_spec(s, ents, allowed).0.stack),
{
    let s2 = step_spec(s, ents, allowed).0;
    if s2.stack.len() == s.stack.len() + 1 {
        let id = s2.stack.last();
        assert(s2.stack == s.stack.push(id));
        assert(!s.stack.contains(id));
        assert forall|i: int, j: int| 0 <= i < j < s2.stack.len() implies s2.stack[i] != s2.stack[j] by {
            if j == s.stack.len() {
                assert(s.stack[i] == s2.stack[i]);
            }
        }
    }
}

/// While an evaluation goes on, the capabilities it used are allowed: a
/// step that would use more ends it with a fatal error.
pub proof fn lemma_features_stay_allowed(s: EvalStateV, ents: Map<u64, Entity>, allowed: u32)
    requires
        s.status is Ok ==> allows(allowed, s.used),
    ensures
        step_spec(s, ents, allowed).0.status is Ok ==> allows(allowed, step_spec(s, ents, allowed).0.used),
{
}

/// The entity on top of the stack ends with a catchable error: the error
/// becomes its value.
pub proof fn lemma_catch_is_stored(s: EvalStateV, ents: Map<u64, Entity>, allowed: u32, err: cerr)
    requires
        s.status is Ok,
        s.stack.len() > 0,
        !s.values.contains_key(s.stack.last()),
        ents.contains_key(s.stack.last()),
        sp_eval(CtxV { values: s.values, answer: answer_for(s, s.stack.last()) }, ents[s.stack.last()]).0 == FlowV::<AnyV>::Catch(err),
    ensures
        step_spec(s, ents, allowed).0.values == s.values.insert(s.stack.last(), AnyV::Catchable(err)),
        step_spec(s, ents, allowed).1 == Ok::<StepV, TermV>(StepV::Continue),
{
}

/// The entry point is either evaluated or still the bottom of the stack.
pub open spec fn entry_pending_or_done(s: EvalStateV, entry: u64) -> bool {
    s.values.contains_key(entry) || (s.stack.len() > 0 && s.stack[0] == entry)
}

/// `n` steps from `s` (with no answers given in between).
pub open spec fn run_steps(s: EvalStateV, ents: Map<u64, Entity>, allowed: u32, n: nat) -> EvalStateV
    decreases n,
{
    if n == 0 {
        s
    } else {
        step_spec(run_steps(s, ents, allowed, (n - 1) as nat), ents, allowed).0
    }
}

/// Every step keeps the entry point evaluated, or at the bottom of the
/// stack.
pub proof fn lemma_entry_stays_pending_or_done(s: EvalStateV, ents: Map<u64, Entity>, allowed: u32, entry: u64)
    requires
        entry_pending_or_done(s, entry),
    ensures
        entry_pending_or_done(step_spec(s, ents, allowed).0, entry),
{
    let s2 = step_spec(s, ents, allowed).0;
    if !s.values.contains_key(entry) && s.status is Ok && s.stack.len() > 0 {
        if s2.stack.len() > 0 {
            assert(s2.stack[0] == s.stack[0]);
        }
    }
}

/// A step reports `Finished` exactly when the stack is empty; then the
/// entry point has its value.
pub proof fn lemma_finished_has_entry(s: EvalStateV, ents: Map<u64, Entity>, allowed: u32, entry: u64)
    requires
        s.status is Ok,
        entry_pending_or_done(s, entry),
    ensures
        (step_spec(s, ents, allowed).1 == Ok::<StepV, TermV>(StepV::Finished)) <==> s.stack.len() == 0,
        step_spec(s, ents, allowed).1 == Ok::<StepV, TermV>(StepV::Finished) ==> {
            &&& s.values.contains_key(entry)
            &&& step_spec(s, ents, allowed).0.values == s.values
            &&& step_spec(s, ents, allowed).0.status == Ok::<bool, TermV>(false)
        },
{
}

/// Running an evaluation to its end: from a fresh start on `entry`, after
/// any number of steps the entry point is evaluated or still pending, and a
/// step that reports `Finished` finds its value stored, which no later step
/// changes.
pub proof fn lemma_run_to_end(ents: Map<u64, Entity>, allowed: u32, entry: u64, n: nat)
    ensures
        ({
            let s0 = EvalStateV {
                values: Map::empty(),
                answers: Map::empty(),
                stack: seq![entry],
                actions: Seq::empty(),
                status: Ok(true),
                used: 0,
            };
            let sn = run_steps(s0, ents, allowed, n);
            &&& entry_pending_or_done(sn, entry)
            &&& (sn.status is Ok && step_spec(sn, ents, allowed).1 == Ok::<StepV, TermV>(StepV::Finished))
                ==> sn.values.contains_key(entry) && step_spec(sn, ents, allowed).0.values[entry] == sn.values[entry]
        }),
    decreases n,
{
    let s0 = EvalStateV {
        values: Map::empty(),
        answers: Map::empty(),
        stack: seq![entry],
        actions: Seq::empty(),
        status: Ok(true),
        used: 0,
    };
    if n > 0 {
        lemma_run_to_end(ents, allowed, entry, (n - 1) as nat);
        lemma_entry_stays_pending_or_done(run_steps(s0, ents, allowed, (n - 1) as nat), ents, allowed, entry);
    }
    let sn = run_steps(s0, ents, allowed, n);
    if sn.status is Ok {
        lemma_finished_has_entry(sn, ents, allowed, entry);
    }
}

/// What giving an answer does to a state (see `provide_answer`; an error
/// answer ends the evaluation).
pub open spec fn answer_spec(s: EvalStateV, a: Result<AnswerV, FatalV>) -> EvalStateV {
    if s.status is Ok && s.stack.len() > 0 {
        match a {
            Ok(x) => EvalStateV { answers: s.answers.insert(s.stack.last(), x), ..s },
            Err(f) => EvalStateV { status: Err(TermV::Fatal(f)), ..s },
        }
    } else {
        s
    }
}

/// The state after a run of events: `None` is a step, `Some(a)` the
/// answer `a`.
pub open spec fn run_events(s: EvalStateV, ents: Map<u64, Entity>, allowed: u32, evs: Seq<Option<Result<AnswerV, FatalV>>>) -> EvalStateV
    decreases evs.len(),
{
    if evs.len() == 0 {
        s
    } else {
        let before = run_events(s, ents, allowed, evs.drop_last());
        match evs.last() {
            None => step_spec(before, ents, allowed).0,
            Some(a) => answer_spec(before, a),
        }
    }
}

/// Running an evaluation to its end, with answers given in between: from a
/// fresh start on `entry`, after any steps and answers the entry point is
/// evaluated or still pending; a step that then reports `Finished` finds
/// the entry point's value stored and keeps it, and `value` gives it.
pub proof fn lemma_run_to_end_with_answers(ents: Map<u64, Entity>, allowed: u32, entry: u64, evs: Seq<Option<Result<AnswerV, FatalV>>>)
    ensures
        ({
            let s0 = EvalStateV {
                values: Map::empty(),
                answers: Map::empty(),
                stack: seq![entry],
                actions: Seq::empty(),
                status: Ok(true),
                used: 0,
            };
            let sn = run_events(s0, ents, allowed, evs);
            &&& entry_pending_or_done(sn, entry)
            &&& (sn.status is Ok && step_spec(sn, ents, allowed).1 == Ok::<StepV, TermV>(StepV::Finished))
                ==> {
                    &&& sn.values.contains_key(entry)
                    &&& step_spec(sn, ents, allowed).0.values[entry] == sn.values[entry]
                    &&& step_spec(sn, ents, allowed).0.status == Ok::<bool, TermV>(false)
                }
        }),
    decreases evs.len(),
{
    let s0 = EvalStateV {
        values: Map::empty(),
        answers: Map::empty(),
        stack: seq![entry],
        actions: Seq::empty(),
        status: Ok(true),
        used: 0,
    };
    if evs.len() > 0 {
        lemma_run_to_end_with_answers(ents, allowed, entry, evs.drop_last());
        let before = run_events(s0, ents, allowed, evs.drop_last());
        match evs.last() {
            None => lemma_entry_stays_pending_or_done(before, ents, allowed, entry),
            Some(a) => {},
        }
    }
    let sn = run_events(s0, ents, allowed, evs);
    if sn.status is Ok {
        lemma_finished_has_entry(sn, ents, allowed, entry);
    }
}

/// Whether `x` is in `v`.
fn vec_contains(v: &Vec<u64>, x: u64) -> (r: bool)
    ensures
        r == v@.contains(x),
{
    let mut i: usize = 0;
    while i < v.len()
        invariant
            i <= v.len(),
            forall|j: int| 0 <= j < i ==> v@[j] != x,
        decreases v.len() - i,
    {
        if v[i] == x {
            assert(v@[i as int] == x);
            return true;
        }
        i = i + 1;
    }
    false
}

fn clone_end_action(a: &EndThisTestAction) -> (r: EndThisTestAction)
    ensures
        r.mode == a.mode,
        r.explaination@ == a.explaination@,
{
    a.clone()
}

fn clone_fatal(f: &FatalError) -> (r: FatalError)
    ensures
        r@ == f@,
{
    match f {
        FatalError::FeatureMissmatch { required, provided } => FatalError::FeatureMissmatch { required: *required, provided: *provided },
        FatalError::RequestedSelectorValueNotAvailable(s) => FatalError::RequestedSelectorValueNotAvailable(s.clone()),
        FatalError::EntityNotFound(id) => FatalError::EntityNotFound(*id),
        FatalError::CyclicIdReferences(id) => FatalError::CyclicIdReferences(*id),
        FatalError::AnswerMismatch => FatalError::AnswerMismatch,
    }
}

/// A copy of a termination.
pub fn clone_termination(t: &AnyEvalTermination) -> (r: AnyEvalTermination)
    ensures
        r@ == t@,
{
    match t {
        AnyEvalTermination::Fatal(f) => AnyEvalTermination::Fatal(clone_fatal(f)),
        AnyEvalTermination::End(StopEval::EndTest(a)) => AnyEvalTermination::End(StopEval::EndTest(clone_end_action(a))),
    }
}

impl<'e> SingleEvaluation<'e, EvaluationRunning> {
    /// Starts the evaluation of `entry_point`; it must be one of the
    /// entities.
    pub fn new(entities: &'e BTreeMap<u64, Entity>, entry_point: u64, allowed_features: Features) -> (r: Result<Self, EntryPointMissing>)
        ensures
            match r {
                Ok(ev) => {
                    &&& entities@.contains_key(entry_point)
                    &&& ev@ == EvalStateV {
                        values: Map::empty(),
                        answers: Map::empty(),
                        stack: seq![entry_point],
                        actions: Seq::empty(),
                        status: Ok(true),
                        used: 0,
                    }
                    &&& ev.entities() == entities
                    &&& ev.entry() == entry_point
                    &&& ev.allowed() == allowed_features.0
                },
                Err(e) => !entities@.contains_key(entry_point) && e.0 == entry_point,
            },
    {
        if entities.contains_key(&entry_point) {
            let mut stack = Vec::new();
            stack.push(entry_point);
            let ev = SingleEvaluation {
                entities,
                entry_point,
                allowed_features,
                values: BTreeMap::new(),
                answers: BTreeMap::new(),
                id_stack: stack,
                actions: Vec::new(),
                status: Ok(true),
                used_features: Features::empty(),
                marker: PhantomData,
            };
            assert(ev@.values =~= Map::empty());
            assert(ev@.answers =~= Map::empty());
            assert(ev@.actions =~= Seq::empty());
            assert(ev@.stack =~= seq![entry_point]);
            Ok(ev)
        } else {
            Err(EntryPointMissing(entry_point))
        }
    }

    /// Takes one step (see the module documentation).
    pub fn run_step(&mut self) -> (r: Result<Step, AnyEvalTermination>)
        ensures
            (final(self)@, step_result_view(r)) == step_spec(old(self)@, old(self).entities()@, old(self).allowed()),
            final(self).entities() == old(self).entities(),
            final(self).entry() == old(self).entry(),
            final(self).allowed() == old(self).allowed(),
    {
        match &self.status {
            Err(t) => {
                return Err(clone_termination(t));
            },
            Ok(_) => {},
        }
        let r = self.core_run_step();
        match &r {
            Ok(Step::Finished) => {
                self.status = Ok(false);
            },
            Ok(_) => {
                self.status = Ok(true);
            },
            Err(t) => {
                self.status = Err(clone_termination(t));
            },
        }
        r
    }

    fn core_run_step(&mut self) -> (r: Result<Step, AnyEvalTermination>)
        requires
            old(self).status is Ok,
        ensures
            ({
                let (s2, res) = core_step(old(self)@, old(self).entities()@, old(self).allowed());
                &&& step_result_view(r) == res
                &&& final(self)@.values == s2.values
                &&& final(self)@.answers == s2.answers
                &&& final(self)@.stack == s2.stack
                &&& final(self)@.actions == s2.actions
                &&& final(self)@.used == s2.used
            }),
            final(self).entities() == old(self).entities(),
            final(self).entry() == old(self).entry(),
            final(self).allowed() == old(self).allowed(),
    {
        let len = self.id_stack.len();
        if len == 0 {
            return Ok(Step::Finished);
        }
        let cur = self.id_stack[len - 1];
        assert(cur == self@.stack.last());
        if self.values.contains_key(&cur) {
            self.id_stack.pop();
            assert(self@.stack =~= old(self)@.stack.drop_last());
            return Ok(Step::Continue);
        }
        let entities = self.entities;
        let e = match entities.get(&cur) {
            Some(e) => e,
            None => {
                return Err(AnyEvalTermination::Fatal(FatalError::EntityNotFound(cur)));
            },
        };
        let feats = required_features_of(e);
        let (flow, act) = {
            let cx = EvalContext { values: &self.values, answer: self.answers.get(&cur) };
            assert(cx@.answer == answer_for(self@, cur));
            assert(cx@.values == self@.values);
            evaluate(&cx, e)
        };
        match flow {
            Flow::Done(v) => {
                self.used_features = self.used_features.union(feats);
                let mut early: Option<EndThisTestAction> = None;
                match act {
                    Some(a) => {
                        match &a {
                            RuntimeAction::EndThisTest(x) => {
                                early = Some(clone_end_action(x));
                            },
                            _ => {},
                        }
                        let ghost before = self.actions@.map_values(|a: RuntimeAction| a@);
                        self.actions.push(a);
                        assert(self.actions@.map_values(|a: RuntimeAction| a@) =~= before + seq![a@]);
                    },
                    None => {
                        assert(self.actions@.map_values(|a: RuntimeAction| a@) =~= old(self).actions@.map_values(|a: RuntimeAction| a@) + Seq::<ActV>::empty());
                    },
                }
                if !self.allowed_features.contains(self.used_features) {
                    return Err(AnyEvalTermination::Fatal(FatalError::FeatureMissmatch { required: self.used_features, provided: self.allowed_features }));
                }
                match early {
                    Some(x) => {
                        return Err(AnyEvalTermination::End(StopEval::EndTest(x)));
                    },
                    None => {},
                }
                self.values.insert(cur, v);
                self.answers.remove(&cur);
                proof {
                    assert(self@.values =~= old(self)@.values.insert(cur, v@));
                    assert(self@.answers =~= old(self)@.answers.remove(cur));
                }
                Ok(Step::Continue)
            },
            Flow::Catch(err) => {
                self.values.insert(cur, RuntimeAny::Catchable(err));
                self.answers.remove(&cur);
                proof {
                    assert(self@.values =~= old(self)@.values.insert(cur, AnyV::Catchable(err)));
                    assert(self@.answers =~= old(self)@.answers.remove(cur));
                }
                Ok(Step::Continue)
            },
            Flow::Need(q) => match q {
                Query::Entity(id) => {
                    if vec_contains(&self.id_stack, id) {
                        Err(AnyEvalTermination::Fatal(FatalError::CyclicIdReferences(id)))
                    } else {
                        self.id_stack.push(id);
                        Ok(Step::Continue)
                    }
                },
                Query::Selector(sel) => {
                    self.used_features = self.used_features.union(feats);
                    if !self.allowed_features.contains(self.used_features) {
                        Err(AnyEvalTermination::Fatal(FatalError::FeatureMissmatch { required: self.used_features, provided: self.allowed_features }))
                    } else {
                        Ok(Step::Ask(Query::Selector(sel)))
                    }
                },
                other => Ok(Step::Ask(other)),
            },
            Flow::Fatal(_) => Err(AnyEvalTermination::Fatal(FatalError::AnswerMismatch)),
        }
    }

    /// Gives the answer to the question that the last step asked, for the
    /// entity on top of the stack; an error ends the evaluation with it.
    pub fn provide_answer(&mut self, answer: Result<Answer, FatalError>)
        ensures
            old(self)@.status is Ok && old(self)@.stack.len() > 0 ==> match answer {
                Ok(a) => final(self)@ == EvalStateV {
                    answers: old(self)@.answers.insert(old(self)@.stack.last(), a@),
                    ..old(self)@
                },
                Err(f) => final(self)@ == EvalStateV {
                    status: Err(TermV::Fatal(f@)),
                    ..old(self)@
                },
            },
            !(old(self)@.status is Ok && old(self)@.stack.len() > 0) ==> final(self)@ == old(self)@,
            final(self)@ == answer_spec(old(self)@, match answer {
                Ok(a) => Ok::<AnswerV, FatalV>(a@),
                Err(f) => Err::<AnswerV, FatalV>(f@),
            }),
            final(self).entities() == old(self).entities(),
            final(self).entry() == old(self).entry(),
            final(self).allowed() == old(self).allowed(),
    {
        if self.status.is_err() || self.id_stack.len() == 0 {
            return;
        }
        let cur = self.id_stack[self.id_stack.len() - 1];
        match answer {
            Ok(a) => {
                self.answers.insert(cur, a);
                assert(self@.answers =~= old(self)@.answers.insert(cur, a@));
            },
            Err(f) => {
                self.status = Err(AnyEvalTermination::Fatal(f));
            },
        }
    }

    /// The evaluation, marked as ran to its end.
    pub fn into_finished(self) -> (r: SingleEvaluation<'e, EvaluationFinished>)
        ensures
            r@ == self@,
            r.entry() == self.entry(),
    {
        SingleEvaluation {
            entities: self.entities,
            entry_point: self.entry_point,
            allowed_features: self.allowed_features,
            values: self.values,
            answers: self.answers,
            id_stack: self.id_stack,
            actions: self.actions,
            status: self.status,
            used_features: self.used_features,
            marker: PhantomData,
        }
    }

    /// The evaluation, marked as ran to its end or ended early.
    pub fn into_finished_or_cancelled(self) -> (r: SingleEvaluation<'e, EvaluationFinishedOrCancelled>)
        ensures
            r@ == self@,
            r.entry() == self.entry(),
    {
        SingleEvaluation {
            entities: self.entities,
            entry_point: self.entry_point,
            allowed_features: self.allowed_features,
            values: self.values,
            answers: self.answers,
            id_stack: self.id_stack,
            actions: self.actions,
            status: self.status,
            used_features: self.used_features,
            marker: PhantomData,
        }
    }
}

impl<'e, Status> SingleEvaluation<'e, Status> {
    /// The entities.
    pub closed spec fn entities(&self) -> &'e BTreeMap<u64, Entity> {
        self.entities
    }

    /// The entry point.
    pub closed spec fn entry(&self) -> u64 {
        self.entry_point
    }

    /// The allowed capabilities.
    pub closed spec fn allowed(&self) -> u32 {
        self.allowed_features.0
    }

    /// The value of the entry point, once known; the termination, if the
    /// evaluation was ended.
    pub fn value(&self) -> (r: Result<Option<&RuntimeAny>, AnyEvalTermination>)
        ensures
            match self@.status {
                Err(t) => r matches Err(x) && x@ == t,
                Ok(_) => match r {
                    Ok(Some(a)) => self@.values.contains_key(self.entry()) && a@ == self@.values[self.entry()],
                    Ok(None) => !self@.values.contains_key(self.entry()),
                    Err(_) => false,
                },
            },
    {
        match &self.status {
            Err(t) => Err(clone_termination(t)),
            Ok(_) => Ok(self.values.get(&self.entry_point)),
        }
    }

    /// The value of the entry point read as `T`.
    pub fn maybe_specialized_value<T: SpecializeFrom>(&self) -> (r: Result<Option<T>, ValueError>)
        ensures
            match self@.status {
                Err(t) => r matches Err(ValueError::Termination(x)) && x@ == t,
                Ok(_) => if self@.values.contains_key(self.entry()) {
                    match T::spec_cast(self@.values[self.entry()]) {
                        Ok(m) => r matches Ok(Some(x)) && x.model() == m,
                        Err(e) => r == Err::<Option<T>, ValueError>(ValueError::Catchable(e)),
                    }
                } else {
                    r matches Ok(None)
                },
            },
    {
        match self.value() {
            Err(t) => Err(ValueError::Termination(t)),
            Ok(None) => Ok(None),
            Ok(Some(a)) => match T::specialize_from(a) {
                Ok(x) => Ok(Some(x)),
                Err(e) => Err(ValueError::Catchable(e)),
            },
        }
    }

    /// The actions that the evaluation triggered, in order.
    pub fn into_actions(self) -> (r: Vec<RuntimeAction>)
        ensures
            r@.map_values(|a: RuntimeAction| a@) == self@.actions,
    {
        self.actions
    }

    /// The values of all entities evaluated so far.
    pub fn all_values(&self) -> (r: &BTreeMap<u64, RuntimeAny>)
        ensures
            r@.map_values(|a: RuntimeAny| a@) == self@.values,
    {
        &self.values
    }
}

impl<'e> SingleEvaluation<'e, EvaluationFinished> {
    /// The value of the entry point read as `T`; an early end of the test is
    /// an error here.
    pub fn one_specialized<T: SpecializeFrom>(&self) -> (r: Result<T, SingleEvaluationError<StopEval>>)
        ensures
            match self@.status {
                Err(TermV::Fatal(f)) => r matches Err(SingleEvaluationError::Fatal(x)) && x@ == f,
                Err(TermV::End(m, t)) => r matches Err(SingleEvaluationError::Extra(StopEval::EndTest(a))) && a.mode == m && a.explaination@ == t,
                Ok(_) => if self@.values.contains_key(self.entry()) {
                    match T::spec_cast(self@.values[self.entry()]) {
                        Ok(m) => r matches Ok(x) && x.model() == m,
                        Err(e) => r matches Err(SingleEvaluationError::Cerr(x)) && x == e,
                    }
                } else {
                    r matches Err(SingleEvaluationError::EntryPoint(x)) && x.0 == self.entry()
                },
            },
    {
        match self.maybe_specialized_value::<T>() {
            Ok(Some(x)) => Ok(x),
            Ok(None) => Err(SingleEvaluationError::EntryPoint(EntryPointMissing(self.entry_point))),
            Err(ValueError::Catchable(e)) => Err(SingleEvaluationError::Cerr(e)),
            Err(ValueError::Termination(AnyEvalTermination::Fatal(f))) => Err(SingleEvaluationError::Fatal(f)),
            Err(ValueError::Termination(AnyEvalTermination::End(end))) => Err(SingleEvaluationError::Extra(end)),
        }
    }
}

impl<'e> SingleEvaluation<'e, EvaluationFinishedOrCancelled> {
    /// The value of the entry point read as `T`, or the early end of the
    /// test.
    pub fn one_specialized<T: SpecializeFrom>(&self) -> (r: Result<EndOrValue<T>, SingleEvaluationError<StopEval>>)
        ensures
            match self@.status {
                Err(TermV::Fatal(f)) => r matches Err(SingleEvaluationError::Fatal(x)) && x@ == f,
                Err(TermV::End(m, t)) => r matches Ok(EndOrValue::End(StopEval::EndTest(a))) && a.mode == m && a.explaination@ == t,
                Ok(_) => if self@.values.contains_key(self.entry()) {
                    match T::spec_cast(self@.values[self.entry()]) {
                        Ok(m) => r matches Ok(EndOrValue::Value(x)) && x.model() == m,
                        Err(e) => r matches Err(SingleEvaluationError::Cerr(x)) && x == e,
                    }
                } else {
                    r matches Err(SingleEvaluationError::EntryPoint(x)) && x.0 == self.entry()
                },
            },
    {
        match self.maybe_specialized_value::<T>() {
            Ok(Some(x)) => Ok(EndOrValue::Value(x)),
            Ok(None) => Err(SingleEvaluationError::EntryPoint(EntryPointMissing(self.entry_point))),
            Err(ValueError::Catchable(e)) => Err(SingleEvaluationError::Cerr(e)),
            Err(ValueError::Termination(AnyEvalTermination::Fatal(f))) => Err(SingleEvaluationError::Fatal(f)),
            Err(ValueError::Termination(AnyEvalTermination::End(end))) => Ok(EndOrValue::End(end)),
        }
    }
}

} // verus!

//! The decisions of processing tests: how the outcome of a test run and of
//! its evaluation become the status of the test, how hooks end, and when
//! alternative tests are tried.
use vstd::prelude::*;

use crate::evaluation::effects::{Effects, sent_msgs};
use crate::evaluation::selectable::{Rundata, flag_items, inserted};
use crate::evaluation::single_evaluation::{EndOrValue, SingleEvaluationError, StopEval};
use crate::messages::Messages;
use crate::spec::entities::EndThisTestMode;

use crate::spec::runtime::{EndThisTestAction, RuntimeAction, RuntimeCriterion};
use crate::spec::structure::{
    AlternativeTest, AlternativeTestHooks, Bast3StSpec, Category, CategoryHooks, MainTest,
    MainTestHooks, SpecHooks,
};
use crate::spec::text::Text;

verus! {

// ---------------------------------------------------------------------------
// Errors of test runs
// ---------------------------------------------------------------------------

/// A failure of a test run that is no fault of the submission under test;
/// it stops the processing.
#[derive(Debug)]
pub enum FatalRunError {
    File(Text),
    Internal(Text),
    Unsupported(Text),
}

/// A failure of a test run that counts as a failed test, without checking
/// the criterion.
#[derive(Debug)]
pub enum JustFailTestRunError {
    User(Text),
    Limit(Text),
    State(Text),
}

/// How a test run ended with an error (its kind and message).
#[derive(Debug)]
pub enum RunErrorKind {
    /// The run was stopped by a control block: no error.
    TerminatedByControlStop,
    /// The submission never stops.
    User(Text),
    File(Text),
    Internal(Text),
    Unsupported(Text),
    Limit(Text),
    State(Text),
}

/// How the error of a run counts: not at all (`Ok(None)`), as a failed test,
/// or as a fatal error.
pub fn classify_run_error(e: RunErrorKind) -> (r: Result<Option<JustFailTestRunError>, FatalRunError>)
    ensures
        match e {
            RunErrorKind::TerminatedByControlStop => r matches Ok(None),
            RunErrorKind::User(t) => r matches Ok(Some(JustFailTestRunError::User(x))) && x@ == t@,
            RunErrorKind::Limit(t) => r matches Ok(Some(JustFailTestRunError::Limit(x))) && x@ == t@,
            RunErrorKind::State(t) => r matches Ok(Some(JustFailTestRunError::State(x))) && x@ == t@,
            RunErrorKind::File(t) => r matches Err(FatalRunError::File(x)) && x@ == t@,
            RunErrorKind::Internal(t) => r matches Err(FatalRunError::Internal(x)) && x@ == t@,
            RunErrorKind::Unsupported(t) => r matches Err(FatalRunError::Unsupported(x)) && x@ == t@,
        },
{
    match e {
        RunErrorKind::TerminatedByControlStop => Ok(None),
        RunErrorKind::User(t) => Ok(Some(JustFailTestRunError::User(t))),
        RunErrorKind::Limit(t) => Ok(Some(JustFailTestRunError::Limit(t))),
        RunErrorKind::State(t) => Ok(Some(JustFailTestRunError::State(t))),
        RunErrorKind::File(t) => Err(FatalRunError::File(t)),
        RunErrorKind::Internal(t) => Err(FatalRunError::Internal(t)),
        RunErrorKind::Unsupported(t) => Err(FatalRunError::Unsupported(t)),
    }
}

// ---------------------------------------------------------------------------
// Status of a test
// ---------------------------------------------------------------------------

/// The status of a processed test.
#[derive(Debug)]
pub enum ProcessedTestStatus {
    /// An action ended the test.
    EndedByAction(EndThisTestAction),
    /// The criterion was evaluated.
    Criterion(RuntimeCriterion),
    /// The evaluation of the criterion failed.
    Eval(SingleEvaluationError<StopEval>),
    /// The run failed in a way that counts as a failed test.
    JustFailTestRun(JustFailTestRunError),
}

/// Whether a status means that the test passed: an ending action that
/// passes it, or a fulfilled criterion.
pub open spec fn spec_successful(s: ProcessedTestStatus) -> bool {
    match s {
        ProcessedTestStatus::JustFailTestRun(_) | ProcessedTestStatus::Eval(_) => false,
        ProcessedTestStatus::Criterion(c) => c.fulfilled is Ok,
        ProcessedTestStatus::EndedByAction(e) => e.mode == EndThisTestMode::Pass,
    }
}

/// Whether a test may still go on in other ways (alternative tests): not
/// once an action ended it.
pub open spec fn spec_proceedable(s: ProcessedTestStatus) -> bool {
    !(s is EndedByAction)
}

impl ProcessedTestStatus {
    /// Whether the test passed.
    pub fn is_successful(&self) -> (r: bool)
        ensures
            r == spec_successful(*self),
    {
        match self {
            ProcessedTestStatus::JustFailTestRun(_) | ProcessedTestStatus::Eval(_) => false,
            ProcessedTestStatus::Criterion(c) => c.is_fulfilled(),
            ProcessedTestStatus::EndedByAction(e) => match e.mode {
                EndThisTestMode::Pass => true,
                EndThisTestMode::Fail => false,
            },
        }
    }

    /// Whether the test may go on in other ways.
    pub fn proceedable(&self) -> (r: bool)
        ensures
            r == spec_proceedable(*self),
    {
        match self {
            ProcessedTestStatus::EndedByAction(_) => false,
            _ => true,
        }
    }

    /// An early end that a hook asks for becomes the status, unless an
    /// action already ended the test.
    pub fn maybe_overwrite_with_signal(&mut self, signal: Option<StopEval>)
        ensures
            match signal {
                Some(StopEval::EndTest(end)) => if spec_proceedable(*old(self)) {
                    *final(self) == ProcessedTestStatus::EndedByAction(end)
                } else {
                    *final(self) == *old(self)
                },
                None => *final(self) == *old(self),
            },
    {
        match signal {
            Some(StopEval::EndTest(end)) => {
                if self.proceedable() {
                    *self = ProcessedTestStatus::EndedByAction(end);
                }
            },
            None => {},
        }
    }
}

/// A test stays ended once an action ended it: no later signal changes it.
pub proof fn lemma_ended_stays(s: ProcessedTestStatus)
    requires
        s is EndedByAction,
    ensures
        !spec_proceedable(s),
{
}

/// What the run of a test gave: the actions and the outcome of the
/// evaluation of its criterion, or the failure of the run.
#[derive(Debug)]
pub enum ActualTestResultStatus {
    Evaluated(Vec<RuntimeAction>, Result<EndOrValue<RuntimeCriterion>, SingleEvaluationError<StopEval>>),
    RunFailed(Result<JustFailTestRunError, FatalRunError>),
}

/// The status of a test from what its run gave; the effects of the actions
/// of the evaluation are taken in. A fatal run error is handed on.
pub fn process_test_status(status: ActualTestResultStatus, effects: &mut Effects) -> (r: Result<ProcessedTestStatus, FatalRunError>)
    ensures
        match status {
            ActualTestResultStatus::Evaluated(actions, decision) => {
                &&& final(effects).flags@ == inserted(old(effects).flags@, flag_items(actions@.map_values(|a: RuntimeAction| a@)))
                &&& final(effects).messages@ == old(effects).messages@ + sent_msgs(actions@.map_values(|a: RuntimeAction| a@))
                &&& match decision {
                    Ok(EndOrValue::End(StopEval::EndTest(a))) => r == Ok::<ProcessedTestStatus, FatalRunError>(ProcessedTestStatus::EndedByAction(a)),
                    Ok(EndOrValue::Value(c)) => r == Ok::<ProcessedTestStatus, FatalRunError>(ProcessedTestStatus::Criterion(c)),
                    Err(e) => r == Ok::<ProcessedTestStatus, FatalRunError>(ProcessedTestStatus::Eval(e)),
                }
            },
            ActualTestResultStatus::RunFailed(Ok(j)) => r == Ok::<ProcessedTestStatus, FatalRunError>(ProcessedTestStatus::JustFailTestRun(j)) && *final(effects) == *old(effects),
            ActualTestResultStatus::RunFailed(Err(f)) => r == Err::<ProcessedTestStatus, FatalRunError>(f) && *final(effects) == *old(effects),
        },
{
    match status {
        ActualTestResultStatus::Evaluated(actions, decision) => {
            effects.extend(actions);
            match decision {
                Ok(EndOrValue::End(StopEval::EndTest(a))) => Ok(ProcessedTestStatus::EndedByAction(a)),
                Ok(EndOrValue::Value(c)) => Ok(ProcessedTestStatus::Criterion(c)),
                Err(e) => Ok(ProcessedTestStatus::Eval(e)),
            }
        },
        ActualTestResultStatus::RunFailed(Ok(j)) => Ok(ProcessedTestStatus::JustFailTestRun(j)),
        ActualTestResultStatus::RunFailed(Err(f)) => Err(f),
    }
}

// ---------------------------------------------------------------------------
// Hooks
// ---------------------------------------------------------------------------

/// A hook that failed: the evaluation of its criterion or of its action.
#[derive(Debug)]
pub enum HookFailure {
    Criterion(SingleEvaluationError<StopEval>),
    Action(SingleEvaluationError<StopEval>),
}

/// The criterion of a hook that ran, if it was evaluated to the end.
#[derive(Debug)]
pub struct HookResult {
    pub criterion: Option<RuntimeCriterion>,
}

/// Whether the action of a hook is to run: its criterion was evaluated and
/// is fulfilled.
pub fn hook_runs_action(crit: &Result<EndOrValue<RuntimeCriterion>, SingleEvaluationError<StopEval>>) -> (r: bool)
    ensures
        r == (crit matches Ok(EndOrValue::Value(c)) && c.fulfilled is Ok),
{
    match crit {
        Ok(EndOrValue::Value(c)) => c.is_fulfilled(),
        _ => false,
    }
}

/// What a hook gives: the actions it triggered, its criterion (when it was
/// evaluated to the end), and an early end that it asks for.
pub struct HookOutcome {
    pub actions: Vec<RuntimeAction>,
    pub criterion: Option<RuntimeCriterion>,
    pub signal: Option<StopEval>,
}

/// The outcome of a hook from the evaluation of its criterion and, where
/// it ran, of its action. A failed evaluation fails the hook: that of the
/// criterion as a failure of the criterion, that of the action as a failure
/// of the action; an early end of the criterion ends with no
/// actions; else the actions of both evaluations come first, then the
/// action itself, unless it asked for an early end.
pub fn hook_outcome(
    crit: Result<EndOrValue<RuntimeCriterion>, SingleEvaluationError<StopEval>>,
    crit_actions: Vec<RuntimeAction>,
    act: Option<(Result<EndOrValue<RuntimeAction>, SingleEvaluationError<StopEval>>, Vec<RuntimeAction>)>,
) -> (r: Result<HookOutcome, HookFailure>)
    requires
        act is Some <==> (crit matches Ok(EndOrValue::Value(c)) && c.fulfilled is Ok),
    ensures
        match crit {
            Err(e) => r == Err::<HookOutcome, HookFailure>(HookFailure::Criterion(e)),
            Ok(EndOrValue::End(s)) => r matches Ok(o) && o.actions@.len() == 0 && o.criterion is None && o.signal == Some(s),
            Ok(EndOrValue::Value(c)) => match act {
                None => r matches Ok(o) && o.actions@.len() == 0 && o.criterion == Some(c) && o.signal is None,
                Some((Err(e), _)) => r == Err::<HookOutcome, HookFailure>(HookFailure::Action(e)),
                Some((Ok(EndOrValue::End(s)), aa)) => r matches Ok(o) && o.actions@ == crit_actions@ + aa@ && o.criterion == Some(c) && o.signal == Some(s),
                Some((Ok(EndOrValue::Value(a)), aa)) => r matches Ok(o) && o.actions@ == crit_actions@ + aa@ + seq![a] && o.criterion == Some(c) && o.signal is None,
            },
        },
{
    match crit {
        Err(e) => Err(HookFailure::Criterion(e)),
        Ok(EndOrValue::End(s)) => Ok(HookOutcome { actions: Vec::new(), criterion: None, signal: Some(s) }),
        Ok(EndOrValue::Value(c)) => match act {
            None => Ok(HookOutcome { actions: Vec::new(), criterion: Some(c), signal: None }),
            Some((Err(e), _)) => Err(HookFailure::Action(e)),
            Some((Ok(res), aa)) => {
                let mut actions = crit_actions;
                let mut aa = aa;
                actions.append(&mut aa);
                match res {
                    EndOrValue::End(s) => Ok(HookOutcome { actions, criterion: Some(c), signal: Some(s) }),
                    EndOrValue::Value(a) => {
                        actions.push(a);
                        Ok(HookOutcome { actions, criterion: Some(c), signal: None })
                    },
                }
            },
        },
    }
}

/// Records the outcome of one hook of a list; the early end it asks for
/// (if any) stops the list.
pub fn record_hook(tried: &mut Vec<Result<HookResult, HookFailure>>, outcome: Result<HookOutcome, HookFailure>) -> (r: Option<StopEval>)
    ensures
        final(tried)@.len() == old(tried)@.len() + 1,
        final(tried)@.take(old(tried)@.len() as int) == old(tried)@,
        match outcome {
            Err(f) => final(tried)@.last() == Err::<HookResult, HookFailure>(f) && r is None,
            Ok(o) => final(tried)@.last() == Ok::<HookResult, HookFailure>(HookResult { criterion: o.criterion }) && r == o.signal,
        },
{
    match outcome {
        Err(f) => {
            tried.push(Err(f));
            assert(tried@.take(old(tried)@.len() as int) =~= old(tried)@);
            None
        },
        Ok(o) => {
            tried.push(Ok(HookResult { criterion: o.criterion }));
            assert(tried@.take(old(tried)@.len() as int) =~= old(tried)@);
            o.signal
        },
    }
}

/// The status of a test whose hooks ended it before its run.
pub fn status_of_signal(signal: StopEval) -> (r: ProcessedTestStatus)
    ensures
        match signal {
            StopEval::EndTest(a) => r == ProcessedTestStatus::EndedByAction(a),
        },
{
    match signal {
        StopEval::EndTest(a) => ProcessedTestStatus::EndedByAction(a),
    }
}

/// Whether alternative tests are tried after a main test: it may go on and
/// did not pass.
pub fn alternatives_needed(status: &ProcessedTestStatus) -> (r: bool)
    ensures
        r == (spec_proceedable(*status) && !spec_successful(*status)),
{
    status.proceedable() && !status.is_successful()
}

// ---------------------------------------------------------------------------
// Processed tests
// ---------------------------------------------------------------------------

/// What every processed test has: its status, the results of its hooks and
/// the data of its run (if it ran).
pub struct PGeneralTest<Hooks> {
    pub status: ProcessedTestStatus,
    pub hooks: Hooks,
    pub data: Option<Rundata>,
}

/// A processed alternative test.
pub struct PAlternativeTest {
    pub messages: Messages<AlternativeTest>,
    pub general: PGeneralTest<AlternativeTestHooks<Vec<Result<HookResult, HookFailure>>>>,
}

/// A processed main test, with the alternatives it tried.
pub struct PMainTest {
    pub messages: Messages<MainTest>,
    pub general: PGeneralTest<MainTestHooks<Vec<Result<HookResult, HookFailure>>>>,
    pub tried_alternatives: Vec<PAlternativeTest>,
}

/// The outcome of processing a category: its messages, its main tests and
/// its hooks.
pub struct PCategory {
    pub messages: Messages<Category>,
    pub tests: Vec<PMainTest>,
    pub hooks: CategoryHooks<Vec<Result<HookResult, HookFailure>>>,
}

/// The outcome of processing a whole specification.
pub struct PSpec {
    pub messages: Messages<Bast3StSpec>,
    pub categories: Vec<PCategory>,
    pub hooks: SpecHooks<Vec<Result<HookResult, HookFailure>>>,
}

/// The statuses of the tried alternatives, in order.
pub open spec fn alt_statuses(v: Seq<PAlternativeTest>) -> Seq<ProcessedTestStatus> {
    v.map_values(|a: PAlternativeTest| a.general.status)
}

/// Alternatives are tried in order until one passes: every tried one but
/// the last did not pass.
pub open spec fn tried_until_pass(s: Seq<ProcessedTestStatus>) -> bool {
    forall|i: int| 0 <= i < s.len() - 1 ==> !spec_successful(#[trigger] s[i])
}

/// Records a tried alternative after the earlier ones, and tells whether
/// another one is to be tried: only after one that did not pass.
pub fn record_alternative(tried: &mut Vec<PAlternativeTest>, alt: PAlternativeTest) -> (go_on: bool)
    ensures
        final(tried)@ == old(tried)@.push(alt),
        go_on == !spec_successful(alt.general.status),
{
    let go_on = !alt.general.status.is_successful();
    tried.push(alt);
    go_on
}

/// Recording an alternative only while the last one asked to go on keeps
/// the list one where alternatives were tried until one passed; once one
/// passed, it is the last of the list.
pub proof fn lemma_alternatives_until_pass(s: Seq<ProcessedTestStatus>, st: ProcessedTestStatus)
    requires
        tried_until_pass(s),
        s.len() > 0 ==> !spec_successful(s.last()),
    ensures
        tried_until_pass(s.push(st)),
        spec_successful(st) ==> forall|i: int| 0 <= i < s.len() ==> !spec_successful(#[trigger] s.push(st)[i]),
{
    assert forall|i: int| 0 <= i < s.push(st).len() - 1 implies !spec_successful(#[trigger] s.push(st)[i]) by {
        assert(s.push(st)[i] == s[i]);
        if i < s.len() - 1 {
            assert(!spec_successful(s[i]));
        }
    }
}

/// The statuses of a list after recording one more alternative.
pub proof fn lemma_alt_statuses_push(v: Seq<PAlternativeTest>, a: PAlternativeTest)
    ensures
        alt_statuses(v.push(a)) == alt_statuses(v).push(a.general.status),
{
    assert(alt_statuses(v.push(a)) =~= alt_statuses(v).push(a.general.status));
}

impl PMainTest {
    /// The status that counts: that of the last alternative tried, else
    /// that of the main test.
    pub fn final_status(&self) -> (r: &ProcessedTestStatus)
        ensures
            self.tried_alternatives@.len() == 0 ==> *r == self.general.status,
            self.tried_alternatives@.len() > 0 ==> *r == self.tried_alternatives@.last().general.status,
    {
        let n = self.tried_alternatives.len();
        if n == 0 {
            &self.general.status
        } else {
            &self.tried_alternatives[n - 1].general.status
        }
    }
}


// ---------------------------------------------------------------------------
// The course of a main test
// ---------------------------------------------------------------------------

/// The hook lists of a main test.
#[derive(Debug, PartialEq, Eq, Structural, Clone, Copy)]
pub enum MainHook {
    BeforeMain,
    BeforeAlternatives,
    AfterAlternatives,
}

/// Where the processing of a main test stands.
#[derive(Debug, PartialEq, Eq, Structural, Clone, Copy)]
pub enum MainTestPhase {
    Start,
    BeforeMain,
    Main,
    BeforeAlternatives,
    Alternatives,
    AfterAlternatives,
    Done,
}

/// What is to be done next for a main test.
#[derive(Debug, PartialEq, Eq, Structural, Clone, Copy)]
pub enum MainTestTodo {
    /// Run a list of hooks, then report `HooksRan`.
    RunHooks(MainHook),
    /// Run the test and process its status, then report `TestRan`.
    RunTest,
    /// Try the alternative tests, then report `AlternativesTried`.
    TryAlternatives,
    /// The main test is processed.
    Finish,
}

/// What happened since the last step.
#[derive(Debug)]
pub enum MainTestEvent {
    Started,
    HooksRan(Option<StopEval>),
    TestRan(ProcessedTestStatus),
    AlternativesTried,
}

/// The processing of a main test: its phase and the status so far.
#[derive(Debug)]
pub struct MainTestFlow {
    pub phase: MainTestPhase,
    pub status: Option<ProcessedTestStatus>,
}

/// What is to be done in a phase.
pub open spec fn main_todo(p: MainTestPhase) -> MainTestTodo {
    match p {
        MainTestPhase::Start => MainTestTodo::RunHooks(MainHook::BeforeMain),
        MainTestPhase::BeforeMain => MainTestTodo::RunHooks(MainHook::BeforeMain),
        MainTestPhase::Main => MainTestTodo::RunTest,
        MainTestPhase::BeforeAlternatives => MainTestTodo::RunHooks(MainHook::BeforeAlternatives),
        MainTestPhase::Alternatives => MainTestTodo::TryAlternatives,
        MainTestPhase::AfterAlternatives => MainTestTodo::RunHooks(MainHook::AfterAlternatives),
        MainTestPhase::Done => MainTestTodo::Finish,
    }
}

/// A status after the early end that a hook asks for.
pub open spec fn overwritten(s: Option<ProcessedTestStatus>, sig: Option<StopEval>) -> Option<ProcessedTestStatus> {
    match (s, sig) {
        (Some(st), Some(StopEval::EndTest(end))) => if spec_proceedable(st) {
            Some(ProcessedTestStatus::EndedByAction(end))
        } else {
            s
        },
        _ => s,
    }
}

/// Whether the status lets the main test go on.
pub open spec fn goes_on(s: Option<ProcessedTestStatus>) -> bool {
    match s {
        Some(st) => spec_proceedable(st),
        None => true,
    }
}

/// The phase after the test ran (or after its hooks): alternatives are
/// tried when the test may go on and did not pass; the hooks after the
/// alternatives run when it may go on.
pub open spec fn after_test(s: ProcessedTestStatus) -> MainTestPhase {
    if spec_proceedable(s) && !spec_successful(s) {
        MainTestPhase::BeforeAlternatives
    } else if spec_proceedable(s) {
        MainTestPhase::AfterAlternatives
    } else {
        MainTestPhase::Done
    }
}

/// One step of the processing of a main test: the next phase and status.
/// An event that does not fit the phase changes nothing.
pub open spec fn main_step(p: MainTestPhase, s: Option<ProcessedTestStatus>, e: MainTestEvent) -> (MainTestPhase, Option<ProcessedTestStatus>) {
    match (p, e) {
        (MainTestPhase::Start, MainTestEvent::Started) => (MainTestPhase::BeforeMain, s),
        (MainTestPhase::BeforeMain, MainTestEvent::HooksRan(Some(StopEval::EndTest(end)))) => (MainTestPhase::Done, Some(ProcessedTestStatus::EndedByAction(end))),
        (MainTestPhase::BeforeMain, MainTestEvent::HooksRan(None)) => (MainTestPhase::Main, s),
        (MainTestPhase::Main, MainTestEvent::TestRan(st)) => (after_test(st), Some(st)),
        (MainTestPhase::BeforeAlternatives, MainTestEvent::HooksRan(sig)) => {
            let s2 = overwritten(s, sig);
            (if goes_on(s2) { MainTestPhase::Alternatives } else { MainTestPhase::Done }, s2)
        },
        (MainTestPhase::Alternatives, MainTestEvent::AlternativesTried) => (
            if goes_on(s) { MainTestPhase::AfterAlternatives } else { MainTestPhase::Done },
            s,
        ),
        (MainTestPhase::AfterAlternatives, MainTestEvent::HooksRan(sig)) => (MainTestPhase::Done, overwritten(s, sig)),
        _ => (p, s),
    }
}

fn overwrite_option(s: &mut Option<ProcessedTestStatus>, sig: Option<StopEval>)
    ensures
        *final(s) == overwritten(*old(s), sig),
{
    match s {
        Some(st) => {
            st.maybe_overwrite_with_signal(sig);
        },
        None => {},
    }
}

fn goes_on_exec(s: &Option<ProcessedTestStatus>) -> (r: bool)
    ensures
        r == goes_on(*s),
{
    match s {
        Some(st) => st.proceedable(),
        None => true,
    }
}

impl MainTestFlow {
    /// A main test that is yet to be processed.
    pub fn new() -> (r: Self)
        ensures
            r.phase == MainTestPhase::Start,
            r.status is None,
    {
        MainTestFlow { phase: MainTestPhase::Start, status: None }
    }

    /// Takes an event in and tells what is to be done next.
    pub fn step(&mut self, event: MainTestEvent) -> (r: MainTestTodo)
        ensures
            (final(self).phase, final(self).status) == main_step(old(self).phase, old(self).status, event),
            r == main_todo(final(self).phase),
    {
        match (self.phase, event) {
            (MainTestPhase::Start, MainTestEvent::Started) => {
                self.phase = MainTestPhase::BeforeMain;
            },
            (MainTestPhase::BeforeMain, MainTestEvent::HooksRan(Some(StopEval::EndTest(end)))) => {
                self.status = Some(ProcessedTestStatus::EndedByAction(end));
                self.phase = MainTestPhase::Done;
            },
            (MainTestPhase::BeforeMain, MainTestEvent::HooksRan(None)) => {
                self.phase = MainTestPhase::Main;
            },
            (MainTestPhase::Main, MainTestEvent::TestRan(st)) => {
                let go = st.proceedable();
                let pass = st.is_successful();
                self.phase = if go && !pass {
                    MainTestPhase::BeforeAlternatives
                } else if go {
                    MainTestPhase::AfterAlternatives
                } else {
                    MainTestPhase::Done
                };
                self.status = Some(st);
            },
            (MainTestPhase::BeforeAlternatives, MainTestEvent::HooksRan(sig)) => {
                overwrite_option(&mut self.status, sig);
                self.phase = if goes_on_exec(&self.status) {
                    MainTestPhase::Alternatives
                } else {
                    MainTestPhase::Done
                };
            },
            (MainTestPhase::Alternatives, MainTestEvent::AlternativesTried) => {
                self.phase = if goes_on_exec(&self.status) {
                    MainTestPhase::AfterAlternatives
                } else {
                    MainTestPhase::Done
                };
            },
            (MainTestPhase::AfterAlternatives, MainTestEvent::HooksRan(sig)) => {
                overwrite_option(&mut self.status, sig);
                self.phase = MainTestPhase::Done;
            },
            _ => {},
        }
        match self.phase {
            MainTestPhase::Start => MainTestTodo::RunHooks(MainHook::BeforeMain),
            MainTestPhase::BeforeMain => MainTestTodo::RunHooks(MainHook::BeforeMain),
            MainTestPhase::Main => MainTestTodo::RunTest,
            MainTestPhase::BeforeAlternatives => MainTestTodo::RunHooks(MainHook::BeforeAlternatives),
            MainTestPhase::Alternatives => MainTestTodo::TryAlternatives,
            MainTestPhase::AfterAlternatives => MainTestTodo::RunHooks(MainHook::AfterAlternatives),
            MainTestPhase::Done => MainTestTodo::Finish,
        }
    }
}

/// Once an action ended a main test (after it ran), no hook changes its
/// status any more, and once the processing is done it stays done.
pub proof fn lemma_main_end_is_final(p: MainTestPhase, s: Option<ProcessedTestStatus>, e: MainTestEvent)
    requires
        p != MainTestPhase::Start,
        p != MainTestPhase::BeforeMain,
        p != MainTestPhase::Main,
        s matches Some(st) && st is EndedByAction,
    ensures
        main_step(p, s, e).1 == s,
        p == MainTestPhase::Done ==> main_step(p, s, e).0 == MainTestPhase::Done,
{
}

/// Alternatives are tried only after a main test that may go on and did
/// not pass.
pub proof fn lemma_alternatives_only_after_failure(s: Option<ProcessedTestStatus>, st: ProcessedTestStatus)
    ensures
        main_step(MainTestPhase::Main, s, MainTestEvent::TestRan(st)).0 == MainTestPhase::BeforeAlternatives
            <==> spec_proceedable(st) && !spec_successful(st),
{
}

/// A test that passed goes on to the hooks after the alternatives without
/// trying any.
pub proof fn lemma_pass_skips_alternatives(st: ProcessedTestStatus)
    requires
        spec_successful(st),
        spec_proceedable(st),
    ensures
        main_step(MainTestPhase::Main, None, MainTestEvent::TestRan(st)).0 == MainTestPhase::AfterAlternatives,
{
}

// ---------------------------------------------------------------------------
// The course of an alternative test
// ---------------------------------------------------------------------------

/// Where the processing of an alternative test stands.
#[derive(Debug, PartialEq, Eq, Structural, Clone, Copy)]
pub enum AltTestPhase {
    BeforeAlt,
    Test,
    AfterAlt,
    Done,
}

/// What is to be done next for an alternative test.
#[derive(Debug, PartialEq, Eq, Structural, Clone, Copy)]
pub enum AltTestTodo {
    RunBeforeHooks,
    RunTest,
    RunAfterHooks,
    Finish,
}

/// What happened since the last step of an alternative test.
#[derive(Debug)]
pub enum AltTestEvent {
    HooksRan(Option<StopEval>),
    TestRan(ProcessedTestStatus),
}

/// The processing of an alternative test.
#[derive(Debug)]
pub struct AltTestFlow {
    pub phase: AltTestPhase,
    pub status: Option<ProcessedTestStatus>,
}

/// What is to be done in a phase.
pub open spec fn alt_todo(p: AltTestPhase) -> AltTestTodo {
    match p {
        AltTestPhase::BeforeAlt => AltTestTodo::RunBeforeHooks,
        AltTestPhase::Test => AltTestTodo::RunTest,
        AltTestPhase::AfterAlt => AltTestTodo::RunAfterHooks,
        AltTestPhase::Done => AltTestTodo::Finish,
    }
}

/// One step of the processing of an alternative test. An event that does
/// not fit the phase changes nothing.
pub open spec fn alt_step(p: AltTestPhase, s: Option<ProcessedTestStatus>, e: AltTestEvent) -> (AltTestPhase, Option<ProcessedTestStatus>) {
    match (p, e) {
        (AltTestPhase::BeforeAlt, AltTestEvent::HooksRan(Some(StopEval::EndTest(end)))) => (AltTestPhase::Done, Some(ProcessedTestStatus::EndedByAction(end))),
        (AltTestPhase::BeforeAlt, AltTestEvent::HooksRan(None)) => (AltTestPhase::Test, s),
        (AltTestPhase::Test, AltTestEvent::TestRan(st)) => (
            if spec_proceedable(st) { AltTestPhase::AfterAlt } else { AltTestPhase::Done },
            Some(st),
        ),
        (AltTestPhase::AfterAlt, AltTestEvent::HooksRan(sig)) => (AltTestPhase::Done, overwritten(s, sig)),
        _ => (p, s),
    }
}

impl AltTestFlow {
    /// An alternative test that is yet to be processed.
    pub fn new() -> (r: Self)
        ensures
            r.phase == AltTestPhase::BeforeAlt,
            r.status is None,
    {
        AltTestFlow { phase: AltTestPhase::BeforeAlt, status: None }
    }

    /// Takes an event in and tells what is to be done next.
    pub fn step(&mut self, event: AltTestEvent) -> (r: AltTestTodo)
        ensures
            (final(self).phase, final(self).status) == alt_step(old(self).phase, old(self).status, event),
            r == alt_todo(final(self).phase),
    {
        match (self.phase, event) {
            (AltTestPhase::BeforeAlt, AltTestEvent::HooksRan(Some(StopEval::EndTest(end)))) => {
                self.status = Some(ProcessedTestStatus::EndedByAction(end));
                self.phase = AltTestPhase::Done;
            },
            (AltTestPhase::BeforeAlt, AltTestEvent::HooksRan(None)) => {
                self.phase = AltTestPhase::Test;
            },
            (AltTestPhase::Test, AltTestEvent::TestRan(st)) => {
                self.phase = if st.proceedable() {
                    AltTestPhase::AfterAlt
                } else {
                    AltTestPhase::Done
                };
                self.status = Some(st);
            },
            (AltTestPhase::AfterAlt, AltTestEvent::HooksRan(sig)) => {
                overwrite_option(&mut self.status, sig);
                self.phase = AltTestPhase::Done;
            },
            _ => {},
        }
        match self.phase {
            AltTestPhase::BeforeAlt => AltTestTodo::RunBeforeHooks,
            AltTestPhase::Test => AltTestTodo::RunTest,
            AltTestPhase::AfterAlt => AltTestTodo::RunAfterHooks,
            AltTestPhase::Done => AltTestTodo::Finish,
        }
    }
}

/// Whether no further alternative is tried after one with this status: it
/// passed.
pub fn no_other_alternatives_needed(status: &ProcessedTestStatus) -> (r: bool)
    ensures
        r == spec_successful(*status),
{
    status.is_successful()
}

/// An early end asked for by the hooks before the alternatives of a main
/// test that may still go on ends the test with that end: its status becomes
/// the end, processing is done, and no alternatives are tried. Without an
/// early end, a test that did not pass goes on to its alternatives.
pub proof fn lemma_end_before_alternatives(st: ProcessedTestStatus, end: EndThisTestAction)
    requires
        !(st is EndedByAction),
    ensures
        main_step(MainTestPhase::BeforeAlternatives, Some(st), MainTestEvent::HooksRan(Some(StopEval::EndTest(end))))
            == (MainTestPhase::Done, Some(ProcessedTestStatus::EndedByAction(end))),
        main_todo(MainTestPhase::Done) == MainTestTodo::Finish,
        main_step(MainTestPhase::BeforeAlternatives, Some(st), MainTestEvent::HooksRan(None))
            == (MainTestPhase::Alternatives, Some(st)),
        main_todo(MainTestPhase::Alternatives) == MainTestTodo::TryAlternatives,
{
}

/// An early end asked for by the hooks after the alternatives, or after an
/// alternative test, replaces the status of a test that may still go on.
pub proof fn lemma_end_after_tests(st: ProcessedTestStatus, end: EndThisTestAction)
    requires
        !(st is EndedByAction),
    ensures
        main_step(MainTestPhase::AfterAlternatives, Some(st), MainTestEvent::HooksRan(Some(StopEval::EndTest(end))))
            == (MainTestPhase::Done, Some(ProcessedTestStatus::EndedByAction(end))),
        alt_step(AltTestPhase::AfterAlt, Some(st), AltTestEvent::HooksRan(Some(StopEval::EndTest(end))))
            == (AltTestPhase::Done, Some(ProcessedTestStatus::EndedByAction(end))),
        alt_step(AltTestPhase::BeforeAlt, None, AltTestEvent::HooksRan(Some(StopEval::EndTest(end))))
            == (AltTestPhase::Done, Some(ProcessedTestStatus::EndedByAction(end))),
        main_step(MainTestPhase::BeforeMain, None, MainTestEvent::HooksRan(Some(StopEval::EndTest(end))))
            == (MainTestPhase::Done, Some(ProcessedTestStatus::EndedByAction(end))),
{
}

/// Which statuses count as passed: a test ended by an action passes exactly
/// when the action says pass; an evaluated criterion exactly when it is
/// fulfilled; a failed run or evaluation never. Only a test that an action
/// ended may not go on to other tests.
pub proof fn lemma_what_passes(a: EndThisTestAction, c: RuntimeCriterion, e: SingleEvaluationError<StopEval>, j: JustFailTestRunError)
    ensures
        spec_successful(ProcessedTestStatus::EndedByAction(a)) <==> a.mode == EndThisTestMode::Pass,
        spec_successful(ProcessedTestStatus::Criterion(c)) <==> c.fulfilled is Ok,
        !spec_successful(ProcessedTestStatus::Eval(e)),
        !spec_successful(ProcessedTestStatus::JustFailTestRun(j)),
        !spec_proceedable(ProcessedTestStatus::EndedByAction(a)),
        spec_proceedable(ProcessedTestStatus::Criterion(c)),
        spec_proceedable(ProcessedTestStatus::Eval(e)),
        spec_proceedable(ProcessedTestStatus::JustFailTestRun(j)),
{
}

} // verus!

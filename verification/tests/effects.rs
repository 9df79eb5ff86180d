use bast3st::evaluation::effects::Effects;
use bast3st::evaluation::process::{
    ActualTestResultStatus, AltTestEvent, AltTestFlow, AltTestTodo, FatalRunError, HookFailure,
    JustFailTestRunError, MainHook, MainTestEvent, MainTestFlow, MainTestTodo,
    ProcessedTestStatus, RunErrorKind, alternatives_needed, classify_run_error, hook_outcome,
    hook_runs_action, process_test_status, record_hook,
};
use bast3st::evaluation::selectable::{
    FlagData, ParamData, Rundata, SelFal, SelectableSource, TestRundataSource, enforce_required,
};
use bast3st::evaluation::single_evaluation::{EndOrValue, SingleEvaluationError, StopEval};
use bast3st::features::Features;
use bast3st::log_pfx::LogPfx;
use bast3st::messages::{AnyMessages, Message, Messages};
use bast3st::spec::entities::{
    Coremapping, EndThisTestMode, MessageSendingLevel, MessageSeverity, Selector, SetFlagMode,
};
use bast3st::spec::runtime::{
    EndThisTestAction, FatalError, InnerRuntimeCriterion, RuntimeAction, RuntimeAny,
    RuntimeCriterion, SendMsgAction, SetFlagAction,
};
use bast3st::spec::structure::{Category, MainTest};
use bast3st::spec::text::Text;
use bast3st::spec::values::{MapKey, Numeric, PrimitiveValue, RealMapping, RuntimeValue};

fn text(s: &str) -> Text {
    Text(s.to_string())
}

fn send(level: MessageSendingLevel, severity: MessageSeverity, t: &str) -> SendMsgAction {
    MessageSeverity::action_with(severity, level, text(t))
}

fn set_flag(keys: &[&str], v: i64) -> RuntimeAction {
    RuntimeAction::SetFlag(SetFlagAction {
        mode: SetFlagMode::Keep,
        key: keys.iter().map(|k| MapKey::Str(text(k))).collect(),
        value: PrimitiveValue::Number(Numeric::Int(v)),
    })
}

fn crit(ok: bool) -> RuntimeCriterion {
    RuntimeCriterion {
        fulfilled: if ok { Ok(()) } else { Err(None) },
        inner: InnerRuntimeCriterion::AllOf { clauses: vec![] },
    }
}

fn end(mode: EndThisTestMode) -> EndThisTestAction {
    EndThisTestMode::action_with(mode, text("end"))
}

#[test]
fn messages_are_a_sorted_set() {
    let mut m: Messages<Category> = Messages::new();
    m.insert(Message::<Category>::new(MessageSeverity::Info, text("b")));
    m.insert(Message::<Category>::new(MessageSeverity::Error, text("z")));
    m.insert(Message::<Category>::new(MessageSeverity::Info, text("a")));
    m.insert(Message::<Category>::new(MessageSeverity::Info, text("b")));
    assert_eq!(m.len(), 3);
    let out = m.drain();
    let got: Vec<(MessageSeverity, String)> =
        out.iter().map(|x| (x.severity(), x.text().0.clone())).collect();
    assert_eq!(
        got,
        vec![
            (MessageSeverity::Error, "z".to_string()),
            (MessageSeverity::Info, "a".to_string()),
            (MessageSeverity::Info, "b".to_string()),
        ]
    );
    assert_eq!(m.len(), 0);
    let mut again: Messages<Category> = Messages::new();
    again.extend(out);
    let cast: Vec<Message<MainTest>> = again.cast_drain();
    assert_eq!(cast.len(), 3);
    let changed: Message<MainTest> = Message::<Category>::new(MessageSeverity::Warning, text("w")).change_level();
    assert_eq!(changed.severity(), MessageSeverity::Warning);
}

#[test]
fn messages_go_to_their_level() {
    let mut any = AnyMessages::new();
    any.extend(vec![
        send(MessageSendingLevel::Category, MessageSeverity::Info, "cat"),
        send(MessageSendingLevel::Spec, MessageSeverity::Info, "spec"),
        send(MessageSendingLevel::Current, MessageSeverity::Error, "cur"),
        send(MessageSendingLevel::Category, MessageSeverity::Info, "cat"),
    ]);
    let taken: Messages<Category> = any.drain_msg_of();
    assert_eq!(taken.len(), 2);
    assert_eq!(any.0.len(), 1);
    assert_eq!(any.0[0].text.0, "spec");
    let again: Messages<Category> = any.drain_msg_of();
    assert_eq!(again.len(), 0);
}

#[test]
fn log_prefixes() {
    let p = LogPfx::new("main");
    assert_eq!(p.0.0, "\"main\"");
    let q = p.join("cat");
    assert_eq!(q.0.0, "\"main\"/\"cat\"");
}

#[test]
fn flags_set_by_actions_can_be_read_back() {
    let mut flags = FlagData::new();
    flags.extend_with_actions(&vec![
        set_flag(&["a", "b"], 1),
        RuntimeAction::SendMsg(send(MessageSendingLevel::Spec, MessageSeverity::Info, "x")),
        set_flag(&["c"], 2),
    ]);
    let sel = Selector::CoremapItem { mapping: Coremapping::Flags, key: vec![MapKey::Str(text("a")), MapKey::Str(text("b"))] };
    match flags.request(&sel, Features::empty()) {
        Ok(RuntimeAny::Value(RuntimeValue::Prim(PrimitiveValue::Number(Numeric::Int(1))))) => {}
        other => panic!("{other:?}"),
    }
    let sel = Selector::CoremapItem { mapping: Coremapping::Flags, key: vec![MapKey::Str(text("c"))] };
    assert!(matches!(flags.request(&sel, Features::empty()), Ok(RuntimeAny::Value(RuntimeValue::Prim(PrimitiveValue::Number(Numeric::Int(2)))))));
    let sel = Selector::Coremap(Coremapping::Param);
    assert!(matches!(flags.request(&sel, Features::empty()), Err(FatalError::RequestedSelectorValueNotAvailable(_))));
}

#[test]
fn sources_fall_back() {
    let mut params = ParamData::new();
    params.inefficient_insert(MapKey::Str(text("p")), RuntimeValue::Prim(PrimitiveValue::Number(Numeric::Int(5))));
    let data = Rundata::new(vec![], vec![], vec![], RealMapping::empty(), RealMapping::empty());
    let source = SelFal::new_owned(data, params);
    let sel = Selector::CoremapItem { mapping: Coremapping::Param, key: vec![MapKey::Str(text("p"))] };
    assert!(matches!(source.request(&sel, Features::READ_RUNDATA()), Ok(RuntimeAny::Value(RuntimeValue::Prim(PrimitiveValue::Number(Numeric::Int(5)))))));
    // the run data asks for the capability first
    assert!(matches!(source.request(&sel, Features::empty()), Err(FatalError::FeatureMissmatch { .. })));
    let both = (FlagData::new(), ());
    assert!(matches!(both.request(&Selector::Coremap(Coremapping::Input), Features::empty()), Err(FatalError::RequestedSelectorValueNotAvailable(_))));
    let sf = SelFal::new_data(FlagData::new());
    assert!(sf.fallback() == &());
    let mapped = sf.map_data(|f: FlagData| f.into_mapping());
    assert_eq!(mapped.data().len(), 0);
}

#[test]
fn missing_and_borrowed_sources() {
    let data = Rundata::new(vec![RuntimeValue::Prim(PrimitiveValue::Str(text("in")))], vec![], vec![], RealMapping::empty(), RealMapping::empty());
    let input = Selector::Coremap(Coremapping::Input);
    let some: Option<&Rundata> = Some(&data);
    assert!(matches!(some.request(&input, Features::READ_RUNDATA()), Ok(RuntimeAny::Value(_))));
    let none: Option<Rundata> = None;
    assert!(matches!(none.request(&input, Features::READ_RUNDATA()), Err(FatalError::RequestedSelectorValueNotAvailable(_))));
    let mut params = ParamData::new();
    params.inefficient_insert(MapKey::Str(text("p")), RuntimeValue::Prim(PrimitiveValue::Number(Numeric::Int(1))));
    let chained = (&none, &params);
    assert!(matches!(chained.request(&Selector::Coremap(Coremapping::Param), Features::empty()), Ok(RuntimeAny::Value(_))));
}

#[test]
fn data_of_a_source_can_be_changed_in_place() {
    let mut sf = SelFal::new_data(FlagData::new());
    sf.mutate_data(|f: &mut FlagData| f.extend_with_actions(&vec![set_flag(&["k"], 3)]));
    let sel = Selector::CoremapItem { mapping: Coremapping::Flags, key: vec![MapKey::Str(text("k"))] };
    assert!(matches!(sf.request(&sel, Features::empty()), Ok(RuntimeAny::Value(RuntimeValue::Prim(PrimitiveValue::Number(Numeric::Int(3)))))));
}

#[test]
fn required_capabilities() {
    assert!(enforce_required(Features::READ_RUNDATA(), Features::PermittedFEAT_TestScope()).is_ok());
    match enforce_required(Features::READ_RUNDATA(), Features::PermittedFEAT_PreTestHook()) {
        Err(FatalError::FeatureMissmatch { required, provided }) => {
            assert_eq!(required, Features::READ_RUNDATA());
            assert_eq!(provided, Features::PermittedFEAT_PreTestHook());
        }
        other => panic!("{other:?}"),
    }
}

#[test]
fn test_rundata_source_serves_run_data_then_fallback() {
    let params = ParamData::new();
    let source: TestRundataSource<ParamData> = SelFal::new(
        vec![],
        vec![RuntimeValue::Prim(PrimitiveValue::Str(text("hello")))],
        vec![],
        RealMapping::empty(),
        RealMapping::empty(),
        std::borrow::Cow::Borrowed(&params),
    );
    match source.request(&Selector::Coremap(Coremapping::Output), Features::READ_RUNDATA()) {
        Ok(RuntimeAny::Value(RuntimeValue::Comp(c))) => assert_eq!(c.len(), 1),
        other => panic!("{other:?}"),
    }
    assert!(matches!(source.request(&Selector::Coremap(Coremapping::Param), Features::READ_RUNDATA()), Ok(RuntimeAny::Value(_))));
}

#[test]
fn effects_collect_flags_and_messages() {
    let mut e = Effects::new();
    e.extend(vec![
        set_flag(&["x"], 3),
        RuntimeAction::SendMsg(send(MessageSendingLevel::Maintest, MessageSeverity::Warning, "w")),
        RuntimeAction::EndThisTest(end(EndThisTestMode::Pass)),
    ]);
    assert_eq!(e.messages.0.len(), 1);
    let mut other = Effects::new();
    other.extend(vec![set_flag(&["y"], 4)]);
    e.append(other);
    assert_eq!(e.flags.as_mapping().len(), 2);
    let taken: Messages<MainTest> = e.take_messages();
    assert_eq!(taken.len(), 1);
    let sel = Selector::CoremapItem { mapping: Coremapping::Flags, key: vec![MapKey::Str(text("y"))] };
    assert!(matches!(e.request(&sel, Features::empty()), Ok(RuntimeAny::Value(_))));
}

#[test]
fn test_status() {
    assert!(ProcessedTestStatus::Criterion(crit(true)).is_successful());
    assert!(!ProcessedTestStatus::Criterion(crit(false)).is_successful());
    assert!(ProcessedTestStatus::EndedByAction(end(EndThisTestMode::Pass)).is_successful());
    assert!(!ProcessedTestStatus::EndedByAction(end(EndThisTestMode::Fail)).is_successful());
    assert!(!ProcessedTestStatus::EndedByAction(end(EndThisTestMode::Pass)).proceedable());
    assert!(!ProcessedTestStatus::JustFailTestRun(JustFailTestRunError::User(text("loop"))).is_successful());

    let mut s = ProcessedTestStatus::Criterion(crit(false));
    s.maybe_overwrite_with_signal(Some(StopEval::EndTest(end(EndThisTestMode::Pass))));
    assert!(s.is_successful());
    s.maybe_overwrite_with_signal(Some(StopEval::EndTest(end(EndThisTestMode::Fail))));
    assert!(s.is_successful(), "an ended test stays ended");
    assert!(alternatives_needed(&ProcessedTestStatus::Criterion(crit(false))));
    assert!(!alternatives_needed(&ProcessedTestStatus::Criterion(crit(true))));
}

#[test]
fn processing_the_status_of_a_run() {
    let mut e = Effects::new();
    let st = process_test_status(
        ActualTestResultStatus::Evaluated(vec![set_flag(&["f"], 1)], Ok(EndOrValue::Value(crit(true)))),
        &mut e,
    );
    assert!(matches!(st, Ok(ProcessedTestStatus::Criterion(_))));
    assert_eq!(e.flags.as_mapping().len(), 1);
    let st = process_test_status(
        ActualTestResultStatus::Evaluated(vec![], Err(SingleEvaluationError::Cerr(bast3st::catchable::cerr::regex()))),
        &mut e,
    );
    assert!(matches!(st, Ok(ProcessedTestStatus::Eval(_))));
    let st = process_test_status(ActualTestResultStatus::RunFailed(Err(FatalRunError::Internal(text("x")))), &mut e);
    assert!(matches!(st, Err(FatalRunError::Internal(_))));
    assert!(matches!(classify_run_error(RunErrorKind::TerminatedByControlStop), Ok(None)));
    assert!(matches!(classify_run_error(RunErrorKind::Limit(text("l"))), Ok(Some(JustFailTestRunError::Limit(_)))));
    assert!(matches!(classify_run_error(RunErrorKind::File(text("f"))), Err(FatalRunError::File(_))));
}

#[test]
fn hooks() {
    let c: Result<EndOrValue<RuntimeCriterion>, SingleEvaluationError<StopEval>> = Ok(EndOrValue::Value(crit(true)));
    assert!(hook_runs_action(&c));
    let out = hook_outcome(c, vec![], Some((Ok(EndOrValue::Value(set_flag(&["h"], 1))), vec![]))).unwrap();
    assert_eq!(out.actions.len(), 1);
    assert!(out.signal.is_none());
    let c: Result<EndOrValue<RuntimeCriterion>, SingleEvaluationError<StopEval>> = Ok(EndOrValue::Value(crit(false)));
    assert!(!hook_runs_action(&c));
    let out = hook_outcome(c, vec![], None).unwrap();
    assert!(out.actions.is_empty());
    let failed = hook_outcome(Err(SingleEvaluationError::Cerr(bast3st::catchable::cerr::regex())), vec![], None);
    assert!(matches!(failed, Err(HookFailure::Criterion(_))));
    let c: Result<EndOrValue<RuntimeCriterion>, SingleEvaluationError<StopEval>> = Ok(EndOrValue::Value(crit(true)));
    let act_failed = hook_outcome(c, vec![], Some((Err(SingleEvaluationError::Cerr(bast3st::catchable::cerr::typing_notAction())), vec![])));
    assert!(matches!(act_failed, Err(HookFailure::Action(SingleEvaluationError::Cerr(_)))));
    let mut tried = vec![];
    assert!(record_hook(&mut tried, failed).is_none());
    let ended = hook_outcome(Ok(EndOrValue::End(StopEval::EndTest(end(EndThisTestMode::Fail)))), vec![], None);
    assert!(record_hook(&mut tried, ended).is_some());
    assert_eq!(tried.len(), 2);
}

#[test]
fn course_of_a_main_test() {
    let mut flow = MainTestFlow::new();
    assert_eq!(flow.step(MainTestEvent::Started), MainTestTodo::RunHooks(MainHook::BeforeMain));
    assert_eq!(flow.step(MainTestEvent::HooksRan(None)), MainTestTodo::RunTest);
    assert_eq!(flow.step(MainTestEvent::TestRan(ProcessedTestStatus::Criterion(crit(false)))), MainTestTodo::RunHooks(MainHook::BeforeAlternatives));
    assert_eq!(flow.step(MainTestEvent::HooksRan(None)), MainTestTodo::TryAlternatives);
    assert_eq!(flow.step(MainTestEvent::AlternativesTried), MainTestTodo::RunHooks(MainHook::AfterAlternatives));
    assert_eq!(flow.step(MainTestEvent::HooksRan(Some(StopEval::EndTest(end(EndThisTestMode::Pass))))), MainTestTodo::Finish);
    assert!(flow.status.as_ref().unwrap().is_successful());

    let mut passed = MainTestFlow::new();
    passed.step(MainTestEvent::Started);
    passed.step(MainTestEvent::HooksRan(None));
    assert_eq!(passed.step(MainTestEvent::TestRan(ProcessedTestStatus::Criterion(crit(true)))), MainTestTodo::RunHooks(MainHook::AfterAlternatives));

    let mut ended = MainTestFlow::new();
    ended.step(MainTestEvent::Started);
    assert_eq!(ended.step(MainTestEvent::HooksRan(Some(StopEval::EndTest(end(EndThisTestMode::Fail))))), MainTestTodo::Finish);
    assert!(!ended.status.as_ref().unwrap().is_successful());

    let mut alt = AltTestFlow::new();
    assert_eq!(alt.step(AltTestEvent::HooksRan(None)), AltTestTodo::RunTest);
    assert_eq!(alt.step(AltTestEvent::TestRan(ProcessedTestStatus::Criterion(crit(true)))), AltTestTodo::RunAfterHooks);
    assert_eq!(alt.step(AltTestEvent::HooksRan(None)), AltTestTodo::Finish);
}

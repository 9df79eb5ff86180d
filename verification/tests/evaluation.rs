use std::collections::BTreeMap;

use bast3st::catchable::cerr;
use bast3st::evaluation::selectable::{Rundata, SelectableSource};
use bast3st::evaluation::single_evaluation::{
    AnyEvalTermination, EndOrValue, EntryPointMissing, EvaluationFinishedOrCancelled,
    SingleEvaluation, SingleEvaluationError, Step, StopEval,
};
use bast3st::features::Features;
use bast3st::spec::entities::{
    ActionEntity, Coremapping, CriterionEntity, EndThisTestMode, Entity, EntityId, NetworkMethod,
    ValueEntity, ValueReference, Selector,
};
use bast3st::spec::eval::{Answer, CompareOp, NumericOp, NumericTask, Query};
use bast3st::spec::runtime::{
    FatalError, InnerRuntimeCriterion, MaybeEval, NetworkResponse, RuntimeAction, RuntimeAny,
    RuntimeCriterion,
};
use bast3st::spec::text::Text;
use bast3st::spec::values::{
    MapKey, MappingOrArray, Numeric, PrimitiveValue, RealMapping, RuntimeValue,
};

fn text(s: &str) -> Text {
    Text(s.to_string())
}

fn lit(s: &str) -> ValueReference {
    ValueReference::LitString(text(s))
}

fn vref(id: u64) -> ValueReference {
    ValueReference::EntityId(EntityId::new(id))
}

fn cid(id: u64) -> EntityId<CriterionEntity> {
    EntityId::new(id)
}

fn aid(id: u64) -> EntityId<ActionEntity> {
    EntityId::new(id)
}

fn int_value(i: i64) -> ValueEntity {
    ValueEntity::Lit { value: PrimitiveValue::Number(Numeric::Int(i)) }
}

fn string(s: &str) -> ValueEntity {
    ValueEntity::Lit { value: PrimitiveValue::Str(text(s)) }
}

fn all() -> Features {
    Features::PermittedFEAT_TestScope()
}

fn no_answer(_q: &Query) -> Result<Answer, FatalError> {
    panic!("no question expected")
}

fn run<'e>(
    ents: &'e BTreeMap<u64, Entity>,
    entry: u64,
    allowed: Features,
    mut answer: impl FnMut(&Query) -> Result<Answer, FatalError>,
) -> SingleEvaluation<'e, EvaluationFinishedOrCancelled> {
    let mut ev = SingleEvaluation::new(ents, entry, allowed).unwrap();
    let mut guard = 0;
    loop {
        guard += 1;
        assert!(guard < 10_000, "evaluation does not end");
        match ev.run_step() {
            Ok(Step::Continue) => {}
            Ok(Step::Finished) => break,
            Ok(Step::Ask(q)) => ev.provide_answer(answer(&q)),
            Err(_) => break,
        }
    }
    ev.into_finished_or_cancelled()
}

fn value_of(ev: &SingleEvaluation<'_, EvaluationFinishedOrCancelled>) -> RuntimeValue {
    match ev.one_specialized::<RuntimeValue>() {
        Ok(EndOrValue::Value(v)) => v,
        other => panic!("no value: {other:?}"),
    }
}

fn crit_of(ev: &SingleEvaluation<'_, EvaluationFinishedOrCancelled>) -> RuntimeCriterion {
    match ev.one_specialized::<RuntimeCriterion>() {
        Ok(EndOrValue::Value(v)) => v,
        other => panic!("no criterion: {other:?}"),
    }
}

fn as_text(v: &RuntimeValue) -> String {
    match v {
        RuntimeValue::Prim(PrimitiveValue::Str(t)) => t.0.clone(),
        other => panic!("not a text: {other:?}"),
    }
}

fn as_int(v: &RuntimeValue) -> i64 {
    match v {
        RuntimeValue::Prim(PrimitiveValue::Number(Numeric::Int(i))) => *i,
        other => panic!("not an integer: {other:?}"),
    }
}

fn explanation(c: &RuntimeCriterion) -> Option<String> {
    match &c.fulfilled {
        Ok(()) => None,
        Err(e) => e.as_ref().map(|t| t.0.clone()),
    }
}

#[test]
fn literal_value() {
    let mut ents = BTreeMap::new();
    ents.insert(1, Entity::Value(string("hi")));
    let ev = run(&ents, 1, all(), no_answer);
    assert_eq!(as_text(&value_of(&ev)), "hi");
}

#[test]
fn concat_of_texts() {
    let mut ents = BTreeMap::new();
    ents.insert(1, Entity::Value(string("cd")));
    ents.insert(2, Entity::Value(ValueEntity::Concat { a: vec![lit("ab"), vref(1), lit("!")] }));
    let ev = run(&ents, 2, all(), no_answer);
    assert_eq!(as_text(&value_of(&ev)), "abcd!");
    assert_eq!(ev.all_values().len(), 2);
}

#[test]
fn equal_texts_and_explanation() {
    let mut ents = BTreeMap::new();
    ents.insert(1, Entity::Criterion(CriterionEntity::Equal {
        failure_explaination: None,
        left: lit("a"),
        right: lit("a"),
    }));
    ents.insert(2, Entity::Criterion(CriterionEntity::Equal {
        failure_explaination: Some(lit("differs")),
        left: lit("a"),
        right: lit("b"),
    }));
    let ev = run(&ents, 1, all(), no_answer);
    assert!(crit_of(&ev).fulfilled.is_ok());
    let ev = run(&ents, 2, all(), no_answer);
    let c = crit_of(&ev);
    assert_eq!(explanation(&c), Some("differs".to_string()));
    assert!(matches!(c.inner, InnerRuntimeCriterion::Equal { .. }));
}

#[test]
fn text_and_number_compare() {
    let mut ents = BTreeMap::new();
    ents.insert(1, Entity::Value(int_value(9)));
    ents.insert(2, Entity::Criterion(CriterionEntity::LowerThen {
        failure_explaination: None,
        left: lit("10"),
        right: vref(1),
    }));
    ents.insert(3, Entity::Value(int_value(5)));
    ents.insert(4, Entity::Criterion(CriterionEntity::Equal {
        failure_explaination: None,
        left: lit("5"),
        right: vref(3),
    }));
    ents.insert(5, Entity::Criterion(CriterionEntity::NotEqual {
        failure_explaination: None,
        left: lit("+5"),
        right: vref(3),
    }));
    // "10" comes before "9" in the order of texts
    assert!(crit_of(&run(&ents, 2, all(), no_answer)).fulfilled.is_ok());
    assert!(crit_of(&run(&ents, 4, all(), no_answer)).fulfilled.is_ok());
    assert!(crit_of(&run(&ents, 5, all(), no_answer)).fulfilled.is_err());
}

#[test]
fn number_comparison_is_asked() {
    let mut ents = BTreeMap::new();
    ents.insert(1, Entity::Value(int_value(3)));
    ents.insert(2, Entity::Value(int_value(4)));
    ents.insert(3, Entity::Criterion(CriterionEntity::GreaterThen {
        failure_explaination: None,
        left: vref(1),
        right: vref(2),
    }));
    let mut asked = 0;
    let ev = run(&ents, 3, all(), |q| {
        asked += 1;
        match q {
            Query::Numeric(NumericTask::Compare { op: CompareOp::GreaterThen, .. }) => {
                Ok(Answer::Decision(false))
            }
            other => panic!("unexpected {other:?}"),
        }
    });
    assert_eq!(asked, 1);
    assert!(crit_of(&ev).fulfilled.is_err());
}

#[test]
fn any_of_stops_at_first_fulfilled() {
    let mut ents = BTreeMap::new();
    ents.insert(1, Entity::Criterion(CriterionEntity::Equal { failure_explaination: None, left: lit("a"), right: lit("b") }));
    ents.insert(2, Entity::Criterion(CriterionEntity::Equal { failure_explaination: None, left: lit("a"), right: lit("a") }));
    ents.insert(3, Entity::Criterion(CriterionEntity::Equal { failure_explaination: None, left: lit("x"), right: lit("y") }));
    ents.insert(4, Entity::Criterion(CriterionEntity::AnyOf { failure_explaination: None, clauses: vec![cid(1), cid(2), cid(3)] }));
    ents.insert(5, Entity::Criterion(CriterionEntity::AllOf { failure_explaination: Some(lit("not all")), clauses: vec![cid(2), cid(1), cid(3)] }));
    let ev = run(&ents, 4, all(), no_answer);
    let c = crit_of(&ev);
    assert!(c.fulfilled.is_ok());
    match &c.inner {
        InnerRuntimeCriterion::AnyOf { clauses } => {
            assert_eq!(clauses.len(), 3);
            assert!(matches!(clauses[2], MaybeEval::Unevaluated));
            assert!(clauses[1].as_eval().is_some());
        }
        other => panic!("{other:?}"),
    }
    // entity 3 was never needed
    assert!(!ev.all_values().contains_key(&3));
    let ev = run(&ents, 5, all(), no_answer);
    let c = crit_of(&ev);
    assert_eq!(explanation(&c), Some("not all".to_string()));
    match &c.inner {
        InnerRuntimeCriterion::AllOf { clauses } => {
            assert!(matches!(clauses[2], MaybeEval::Unevaluated));
        }
        other => panic!("{other:?}"),
    }
}

#[test]
fn negation_and_condition() {
    let mut ents = BTreeMap::new();
    ents.insert(1, Entity::Criterion(CriterionEntity::Equal { failure_explaination: Some(lit("inner")), left: lit("a"), right: lit("b") }));
    ents.insert(2, Entity::Criterion(CriterionEntity::Negated { failure_explaination: None, clause: cid(1) }));
    ents.insert(3, Entity::Criterion(CriterionEntity::Negated { failure_explaination: None, clause: cid(2) }));
    ents.insert(4, Entity::Criterion(CriterionEntity::IfThenElse { failure_explaination: None, if_: cid(2), then_: cid(1), else_: cid(2) }));
    assert!(crit_of(&run(&ents, 2, all(), no_answer)).fulfilled.is_ok());
    let c = crit_of(&run(&ents, 3, all(), no_answer));
    assert!(c.fulfilled.is_err());
    let c = crit_of(&run(&ents, 4, all(), no_answer));
    assert_eq!(explanation(&c), Some("inner".to_string()));
}

#[test]
fn contain_text_and_gaps() {
    let mut ents = BTreeMap::new();
    ents.insert(1, Entity::Criterion(CriterionEntity::ContainText { failure_explaination: None, sub: lit("lo w"), sup: lit("hello world") }));
    ents.insert(2, Entity::Criterion(CriterionEntity::ContainWithGaps { failure_explaination: None, parts: vec![lit("he"), lit("wo")], sup: lit("hello world") }));
    ents.insert(3, Entity::Criterion(CriterionEntity::ContainWithGaps { failure_explaination: None, parts: vec![lit("wo"), lit("he"), lit("x")], sup: lit("hello world") }));
    assert!(crit_of(&run(&ents, 1, all(), no_answer)).fulfilled.is_ok());
    assert!(crit_of(&run(&ents, 2, all(), no_answer)).fulfilled.is_ok());
    let c = crit_of(&run(&ents, 3, all(), no_answer));
    assert!(c.fulfilled.is_err());
    match &c.inner {
        InnerRuntimeCriterion::ContainWithGaps { parts, unevaluated_parts, .. } => {
            assert_eq!(parts.len(), 2);
            assert_eq!(*unevaluated_parts, 1);
        }
        other => panic!("{other:?}"),
    }
}

#[test]
fn contain_number_asks_and_decides() {
    let mut ents = BTreeMap::new();
    ents.insert(1, Entity::Value(int_value(3)));
    ents.insert(2, Entity::Criterion(CriterionEntity::ContainOnlynum { failure_explaination: None, sub: vref(1), sup: lit("a 3 b 4") }));
    let ev = run(&ents, 2, all(), |q| match q {
        Query::Numeric(NumericTask::ContainsNumber { candidates, .. }) => {
            assert_eq!(candidates.len(), 2);
            Ok(Answer::Found(vec![Numeric::Int(3), Numeric::Int(4)], true))
        }
        other => panic!("{other:?}"),
    });
    // 3 is there, but not as the only number
    assert!(crit_of(&ev).fulfilled.is_err());
}

#[test]
fn regular_expressions() {
    let mut ents = BTreeMap::new();
    ents.insert(1, Entity::Criterion(CriterionEntity::MatchesRegex { failure_explaination: None, pattern: lit("^h.*d$"), sup: lit("hello world") }));
    ents.insert(2, Entity::Criterion(CriterionEntity::MatchesRegex { failure_explaination: None, pattern: lit("("), sup: lit("x") }));
    ents.insert(3, Entity::Value(int_value(2)));
    ents.insert(4, Entity::Value(ValueEntity::FirstCaptureOfRegex { pattern: lit("(\\d+)-(?P<b>\\d+)"), sup: lit("x 12-34"), group: Some(vref(3)) }));
    ents.insert(5, Entity::Value(ValueEntity::FirstCaptureOfRegex { pattern: lit("(\\d+)-(?P<b>\\d+)"), sup: lit("x 12-34"), group: Some(lit("b")) }));
    ents.insert(6, Entity::Value(ValueEntity::FirstCaptureOfRegex { pattern: lit("z"), sup: lit("abc"), group: None }));
    ents.insert(7, Entity::Value(ValueEntity::FirstCaptureOfRegex { pattern: lit("\\d+"), sup: lit("ab 77 c"), group: None }));
    assert!(crit_of(&run(&ents, 1, all(), no_answer)).fulfilled.is_ok());
    let ev = run(&ents, 2, all(), no_answer);
    assert!(matches!(ev.value(), Ok(Some(RuntimeAny::Catchable(e))) if *e == cerr::regex_syntax()));
    assert_eq!(as_text(&value_of(&run(&ents, 4, all(), no_answer))), "34");
    assert_eq!(as_text(&value_of(&run(&ents, 5, all(), no_answer))), "34");
    let ev = run(&ents, 6, all(), no_answer);
    assert!(matches!(ev.value(), Ok(Some(RuntimeAny::Catchable(e))) if *e == cerr::regex_noMatch()));
    assert_eq!(as_text(&value_of(&run(&ents, 7, all(), no_answer))), "77");
}

#[test]
fn catching_errors() {
    let mut ents = BTreeMap::new();
    ents.insert(1, Entity::Criterion(CriterionEntity::MatchesRegex { failure_explaination: None, pattern: lit("("), sup: lit("x") }));
    ents.insert(2, Entity::Criterion(CriterionEntity::Equal { failure_explaination: None, left: lit("a"), right: lit("a") }));
    ents.insert(3, Entity::Criterion(CriterionEntity::Catch {
        failure_explaination: None,
        criterion: cid(1),
        error: cerr::regex(),
        only_if: None,
        default_value: Some(cid(2)),
        action: None,
    }));
    ents.insert(4, Entity::Criterion(CriterionEntity::Catch {
        failure_explaination: None,
        criterion: cid(1),
        error: cerr::network(),
        only_if: None,
        default_value: Some(cid(2)),
        action: None,
    }));
    ents.insert(5, Entity::Value(ValueEntity::Trim { value: vref(7) }));
    ents.insert(7, Entity::Value(int_value(1)));
    ents.insert(6, Entity::Value(ValueEntity::Catch {
        value: vref(5),
        error: cerr::typing(),
        only_if: None,
        default_value: Some(lit("fallback")),
        action: None,
    }));
    assert!(crit_of(&run(&ents, 3, all(), no_answer)).fulfilled.is_ok());
    let ev = run(&ents, 4, all(), no_answer);
    assert!(matches!(ev.value(), Ok(Some(RuntimeAny::Catchable(e))) if *e == cerr::regex_syntax()));
    assert_eq!(as_text(&value_of(&run(&ents, 6, all(), no_answer))), "fallback");
}

#[test]
fn end_test_through_a_catch() {
    let mut ents = BTreeMap::new();
    ents.insert(1, Entity::Value(ValueEntity::Trim { value: vref(2) }));
    ents.insert(2, Entity::Value(int_value(1)));
    ents.insert(3, Entity::Action(ActionEntity::EndThisTest { mode: EndThisTestMode::Pass, explaination: lit("done") }));
    ents.insert(4, Entity::Value(ValueEntity::Catch {
        value: vref(1),
        error: cerr::typing(),
        only_if: None,
        default_value: Some(lit("x")),
        action: Some(aid(3)),
    }));
    let ev = run(&ents, 4, all(), no_answer);
    match ev.one_specialized::<RuntimeValue>() {
        Ok(EndOrValue::End(StopEval::EndTest(a))) => {
            assert_eq!(a.mode, EndThisTestMode::Pass);
            assert_eq!(a.explaination.0, "done");
        }
        other => panic!("{other:?}"),
    }
    let actions = ev.into_actions();
    assert_eq!(actions.len(), 1);
    assert!(matches!(actions[0], RuntimeAction::EndThisTest(_)));
    // without the capability to end a test, the same is a fatal error
    let ev = run(&ents, 4, Features::READ_RUNDATA(), no_answer);
    assert!(matches!(ev.value(), Err(AnyEvalTermination::Fatal(FatalError::FeatureMissmatch { .. }))));
}

#[test]
fn cycles_and_missing_entities() {
    let mut ents = BTreeMap::new();
    ents.insert(1, Entity::Value(ValueEntity::Trim { value: vref(2) }));
    ents.insert(2, Entity::Value(ValueEntity::Trim { value: vref(1) }));
    ents.insert(3, Entity::Value(ValueEntity::Trim { value: vref(9) }));
    let ev = run(&ents, 1, all(), no_answer);
    assert!(matches!(ev.value(), Err(AnyEvalTermination::Fatal(FatalError::CyclicIdReferences(1)))));
    let ev = run(&ents, 3, all(), no_answer);
    assert!(matches!(ev.value(), Err(AnyEvalTermination::Fatal(FatalError::EntityNotFound(9)))));
    assert!(matches!(SingleEvaluation::new(&ents, 42, all()), Err(EntryPointMissing(42))));
}

#[test]
fn errors_stay() {
    let mut ents = BTreeMap::new();
    ents.insert(1, Entity::Value(ValueEntity::Trim { value: vref(1) }));
    let mut ev = SingleEvaluation::new(&ents, 1, all()).unwrap();
    // the entity refers to itself: a cycle at once
    assert!(matches!(ev.run_step(), Err(AnyEvalTermination::Fatal(FatalError::CyclicIdReferences(1)))));
    assert!(matches!(ev.run_step(), Err(AnyEvalTermination::Fatal(FatalError::CyclicIdReferences(1)))));
}

#[test]
fn reading_run_data() {
    let mut ents = BTreeMap::new();
    ents.insert(1, Entity::Value(ValueEntity::ReadInput {}));
    ents.insert(2, Entity::Value(ValueEntity::Length { value: vref(1) }));
    let data = Rundata::new(
        vec![RuntimeValue::Prim(PrimitiveValue::Str(text("a"))), RuntimeValue::Prim(PrimitiveValue::Str(text("b")))],
        vec![],
        vec![],
        RealMapping::empty(),
        RealMapping::empty(),
    );
    let ev = run(&ents, 2, all(), |q| match q {
        Query::Selector(s) => data.request(s, all()).map(Answer::Selected),
        other => panic!("{other:?}"),
    });
    assert_eq!(as_int(&value_of(&ev)), 2);
    // without the capability to read run data
    let ev = run(&ents, 2, Features::END_THIS_TEST(), no_answer);
    assert!(matches!(ev.value(), Err(AnyEvalTermination::Fatal(FatalError::FeatureMissmatch { .. }))));
}

#[test]
fn length_counts_characters() {
    let mut ents = BTreeMap::new();
    ents.insert(1, Entity::Value(ValueEntity::Length { value: lit("héllo") }));
    assert_eq!(as_int(&value_of(&run(&ents, 1, all(), no_answer))), 5);
}

#[test]
fn arithmetic_is_asked_and_powers_of_integers_are_not() {
    let mut ents = BTreeMap::new();
    ents.insert(1, Entity::Value(int_value(2)));
    ents.insert(2, Entity::Value(int_value(10)));
    ents.insert(3, Entity::Value(ValueEntity::Add { left: vref(1), right: vref(2) }));
    ents.insert(4, Entity::Value(ValueEntity::Pow { left: vref(1), right: vref(2) }));
    ents.insert(5, Entity::Value(int_value(64)));
    ents.insert(6, Entity::Value(ValueEntity::Pow { left: vref(1), right: vref(5) }));
    let ev = run(&ents, 3, all(), |q| match q {
        Query::Numeric(NumericTask::Binary { op: NumericOp::Add, left, right }) => {
            assert_eq!(*left, Numeric::Int(2));
            assert_eq!(*right, Numeric::Int(10));
            Ok(Answer::Number(Numeric::Int(12)))
        }
        other => panic!("{other:?}"),
    });
    assert_eq!(as_int(&value_of(&ev)), 12);
    assert_eq!(as_int(&value_of(&run(&ents, 4, all(), no_answer))), 1024);
    let mut asked = false;
    let _ = run(&ents, 6, all(), |q| {
        asked = true;
        assert!(matches!(q, Query::Numeric(NumericTask::Binary { op: NumericOp::Pow, .. })));
        Ok(Answer::Number(Numeric::Int(0)))
    });
    assert!(asked, "2^64 does not fit in an i64");
}

#[test]
fn network_requests() {
    let mut ents = BTreeMap::new();
    ents.insert(1, Entity::Value(ValueEntity::NetworkRequest {
        server: text("srv"),
        route: lit("/a"),
        method: NetworkMethod::Get,
        allowed_status: None,
        json: None,
    }));
    ents.insert(2, Entity::Value(ValueEntity::NetworkRequest {
        server: text("srv"),
        route: lit("/a"),
        method: NetworkMethod::Post,
        allowed_status: Some(vec![201]),
        json: Some(vec![(lit("k"), lit("v"))]),
    }));
    let ev = run(&ents, 1, all(), |q| match q {
        Query::Network(r) => {
            assert_eq!(r.route.0, "/a");
            Ok(Answer::Network(Ok(NetworkResponse::new(200))))
        }
        other => panic!("{other:?}"),
    });
    match value_of(&ev) {
        RuntimeValue::Comp(MappingOrArray::Mapping(m)) => {
            assert_eq!(m.len(), 1);
            assert_eq!(as_int(m.get(&MapKey::Str(text("status"))).unwrap()), 200);
        }
        other => panic!("{other:?}"),
    }
    let ev = run(&ents, 2, all(), |_| Ok(Answer::Network(Ok(NetworkResponse::new(200)))));
    assert!(matches!(ev.value(), Ok(Some(RuntimeAny::Catchable(e))) if *e == cerr::network_statusDisallowed()));
}

#[test]
fn views_and_items_of_mappings() {
    let mut ents = BTreeMap::new();
    ents.insert(1, Entity::Value(ValueEntity::ReadParam {}));
    ents.insert(2, Entity::Value(ValueEntity::View { perspective: text("keys"), mapping: vref(1) }));
    ents.insert(3, Entity::Value(ValueEntity::Mapitem { mapping: vref(1), keys: vec![lit("b")] }));
    ents.insert(4, Entity::Value(ValueEntity::Mapitem { mapping: vref(1), keys: vec![lit("zz")] }));
    ents.insert(5, Entity::Value(ValueEntity::View { perspective: text("sum"), mapping: vref(1) }));
    let m = RealMapping::new_with_default(
        vec![
            (MapKey::Str(text("a")), RuntimeValue::Prim(PrimitiveValue::Number(Numeric::Int(1)))),
            (MapKey::Str(text("b")), RuntimeValue::Prim(PrimitiveValue::Number(Numeric::Int(2)))),
        ],
        None,
    );
    let answer = |q: &Query| match q {
        Query::Selector(Selector::Coremap(Coremapping::Param)) => {
            Ok(Answer::Selected(RuntimeAny::Value(RuntimeValue::Comp(MappingOrArray::Mapping(bast3st::spec::values::clone_mapping(&m))))))
        }
        other => panic!("{other:?}"),
    };
    match value_of(&run(&ents, 2, all(), answer)) {
        RuntimeValue::Comp(MappingOrArray::Array(a)) => {
            assert_eq!(a.len(), 2);
            assert_eq!(as_text(&a.0[0]), "a");
        }
        other => panic!("{other:?}"),
    }
    assert_eq!(as_int(&value_of(&run(&ents, 3, all(), answer))), 2);
    let ev = run(&ents, 4, all(), answer);
    assert!(matches!(ev.value(), Ok(Some(RuntimeAny::Catchable(e))) if *e == cerr::mapping_missingKey()));
    let ev = run(&ents, 5, all(), answer);
    assert!(matches!(ev.value(), Ok(Some(RuntimeAny::Catchable(e))) if *e == cerr::exotic_unknownPerspective()));
}

#[test]
fn early_end_is_an_error_for_finished_evaluations() {
    let mut ents = BTreeMap::new();
    ents.insert(1, Entity::Value(ValueEntity::Trim { value: vref(2) }));
    ents.insert(2, Entity::Value(int_value(1)));
    ents.insert(3, Entity::Action(ActionEntity::EndThisTest { mode: EndThisTestMode::Fail, explaination: lit("stop") }));
    ents.insert(4, Entity::Value(ValueEntity::Catch { value: vref(1), error: cerr::typing(), only_if: None, default_value: Some(lit("x")), action: Some(aid(3)) }));
    let mut ev = SingleEvaluation::new(&ents, 4, all()).unwrap();
    while let Ok(Step::Continue) = ev.run_step() {}
    let ev = ev.into_finished();
    assert!(matches!(ev.one_specialized::<RuntimeValue>(), Err(SingleEvaluationError::Extra(StopEval::EndTest(_)))));
}

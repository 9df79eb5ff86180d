use std::collections::BTreeMap;

use bast3st::evaluation::blockcount::{blockcount_map, count_opcodes, params_mapping};
use bast3st::evaluation::selectable::{ParamData, SelectableSource};
use bast3st::evaluation::single_evaluation::{EndOrValue, SingleEvaluation, Step};
use bast3st::features::Features;
use bast3st::spec::entities::{Entity, ValueEntity};
use bast3st::spec::eval::{Answer, Query};
use bast3st::spec::text::Text;
use bast3st::spec::values::{
    MapKey, MappingOrArray, Numeric, PrimitiveValue, RealMapping, RuntimeValue,
};

fn texts(v: &[&str]) -> Vec<Text> {
    v.iter().map(|s| Text(s.to_string())).collect()
}

fn entry<'a>(m: &'a RealMapping, key: &str) -> &'a RuntimeValue {
    m.mapping
        .iter()
        .find(|(k, _)| matches!(k, MapKey::Str(t) if t.0 == key))
        .map(|(_, v)| v)
        .unwrap_or_else(|| panic!("no entry {key}"))
}

fn int_of(v: &RuntimeValue) -> i64 {
    match v {
        RuntimeValue::Prim(PrimitiveValue::Number(Numeric::Int(i))) => *i,
        other => panic!("not an integer: {other:?}"),
    }
}

fn mapping_of(v: &RuntimeValue) -> &RealMapping {
    match v {
        RuntimeValue::Comp(MappingOrArray::Mapping(m)) => m,
        other => panic!("not a mapping: {other:?}"),
    }
}

#[test]
fn opcodes_are_counted_in_order_of_their_names() {
    let counts = count_opcodes(&texts(&["b", "a", "b"]));
    let shown: Vec<(String, u64)> = counts.iter().map(|(t, n)| (t.0.clone(), *n)).collect();
    assert_eq!(shown, vec![("a".to_string(), 1), ("b".to_string(), 2)]);
    assert!(count_opcodes(&texts(&[])).is_empty());
}

#[test]
fn blockcount_has_total_and_counts_by_opcode() {
    let (blockcount, (total, by_opcode)) = blockcount_map(&texts(&["looks_say", "event_start", "looks_say"]));
    assert_eq!(int_of(&total), 3);
    assert_eq!(int_of(entry(&by_opcode, "looks_say")), 2);
    assert_eq!(int_of(entry(&by_opcode, "event_start")), 1);
    assert_eq!(by_opcode.default.as_deref().map(int_of), Some(0));
    assert_eq!(int_of(entry(&blockcount, "total")), 3);
    let opcode = mapping_of(entry(&blockcount, "opcode"));
    assert_eq!(int_of(entry(opcode, "looks_say")), 2);
    assert!(blockcount.default.is_none());
}

#[test]
fn empty_project_has_no_blocks() {
    let (_, (total, by_opcode)) = blockcount_map(&texts(&[]));
    assert_eq!(int_of(&total), 0);
    assert!(by_opcode.mapping.is_empty());
}

#[test]
fn read_blockcount_through_parameters() {
    let (blockcount, _) = blockcount_map(&texts(&["a", "a"]));
    let my = RealMapping::empty();
    let params = params_mapping(blockcount, my);
    let doc = mapping_of(entry(&params, "doc"));
    assert!(mapping_of(entry(&params, "my")).mapping.is_empty());
    let bc = mapping_of(entry(doc, "blockcount"));
    assert_eq!(int_of(entry(bc, "total")), 2);

    let data = ParamData::from_mapping(params);
    let mut ents = BTreeMap::new();
    ents.insert(1, Entity::Value(ValueEntity::ReadBlockcount {}));
    let all = Features::PermittedFEAT_TestScope();
    let mut ev = SingleEvaluation::new(&ents, 1, all).unwrap();
    loop {
        match ev.run_step() {
            Ok(Step::Continue) => {}
            Ok(Step::Finished) | Err(_) => break,
            Ok(Step::Ask(Query::Selector(s))) => ev.provide_answer(data.request(&s, all).map(Answer::Selected)),
            Ok(Step::Ask(other)) => panic!("unexpected question {other:?}"),
        }
    }
    let ev = ev.into_finished_or_cancelled();
    match ev.one_specialized::<RuntimeValue>() {
        Ok(EndOrValue::Value(v)) => assert_eq!(int_of(entry(mapping_of(&v), "total")), 2),
        other => panic!("no value: {other:?}"),
    }
}

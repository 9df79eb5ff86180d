use bast3st::spec::structure::{RandomGeneration, RandomGenerationRepr};

fn from_json(text: &str) -> RandomGeneration {
    let value: serde_json::Value = serde_json::from_str(text).unwrap();
    let repr = match value {
        serde_json::Value::Bool(b) => RandomGenerationRepr::IsEnabled(b),
        serde_json::Value::Number(n) => RandomGenerationRepr::Seed(n.as_u64().unwrap()),
        other => panic!("not a random generation: {other}"),
    };
    RandomGeneration::from(repr)
}

#[test]
fn test_random_generation_serde() {
    let enabled: RandomGeneration = from_json("true");
    let disabled: RandomGeneration = from_json("false");
    let seed: RandomGeneration = from_json("42");
    assert_eq!(RandomGeneration::Enabled, enabled);
    assert_eq!(RandomGeneration::Disabled, disabled);
    assert_eq!(RandomGeneration::EnabledWithSeed(42), seed);
}

#[test]
fn random_generation_round_trip() {
    for g in [
        RandomGeneration::Disabled,
        RandomGeneration::Enabled,
        RandomGeneration::EnabledWithSeed(7),
    ] {
        let r = RandomGenerationRepr::from(g);
        assert_eq!(RandomGeneration::from(r), g);
    }
    assert_eq!(
        RandomGenerationRepr::from(RandomGeneration::Enabled),
        RandomGenerationRepr::IsEnabled(true)
    );
    assert_eq!(RandomGeneration::default(), RandomGeneration::Disabled);
}

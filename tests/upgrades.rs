use cybird::{Effect, EffectTrigger, EffectType, EffectValue, Formula, Upgrade, Upgrades};

fn named(name: &str, stage: u32) -> Upgrade {
    Upgrade {
        name: name.to_string(),
        level: 0,
        stage,
        cost: Formula::fixed(100),
        description: String::new(),
        effect_type: EffectType::Multiplicative,
        effects: vec![Effect {
            trigger: EffectTrigger::Click,
            value: EffectValue::Multiply(Formula::linear(2, 0)),
        }],
    }
}

#[test]
fn upgrades_register_and_get() {
    let mut ups = Upgrades::new();
    assert_eq!(ups.len(), 0);
    assert!(ups.get("missing").is_none());
    ups.register(named("x", 1));
    ups.register(named("y", 2));
    assert_eq!(ups.len(), 2);
    assert_eq!(ups.get("x").unwrap().stage, 1);
    assert_eq!(ups.get("y").unwrap().stage, 2);
    assert!(ups.get("z").is_none());
}

#[test]
fn upgrades_register_same_name_replaces_in_place() {
    let mut ups = Upgrades::default();
    ups.register(named("x", 1));
    ups.register(named("y", 2));
    ups.register(named("x", 9));
    assert_eq!(ups.len(), 2);
    assert_eq!(ups.get("x").unwrap().stage, 9);
    let names: Vec<&str> = ups.iter().iter().map(|(k, _)| k.as_str()).collect();
    assert_eq!(names, vec!["x", "y"]);
}

#[test]
fn upgrades_get_mut_changes_one() {
    let mut ups = Upgrades::new();
    ups.register(named("x", 1));
    ups.register(named("y", 2));
    ups.get_mut("y").unwrap().level = 3;
    assert!(ups.get_mut("nope").is_none());
    assert_eq!(ups.get("y").unwrap().level, 3);
    assert_eq!(ups.get("x").unwrap().level, 0);
}

#[test]
fn upgrades_iter_and_values_follow_registration_order() {
    let mut ups = Upgrades::new();
    ups.register(named("c", 3));
    ups.register(named("a", 1));
    ups.register(named("b", 2));
    let pairs: Vec<(String, u32)> =
        ups.iter().iter().map(|(k, u)| (k.to_string(), u.stage)).collect();
    assert_eq!(
        pairs,
        vec![("c".to_string(), 3), ("a".to_string(), 1), ("b".to_string(), 2)]
    );
    let stages: Vec<u32> = ups.values().iter().map(|u| u.stage).collect();
    assert_eq!(stages, vec![3, 1, 2]);
}

#[test]
fn upgrades_values_mut_writes_back() {
    let mut ups = Upgrades::new();
    ups.register(named("c", 3));
    ups.register(named("a", 1));
    for u in ups.values_mut() {
        u.level += 4;
    }
    assert_eq!(ups.get("c").unwrap().level, 4);
    assert_eq!(ups.get("a").unwrap().level, 4);
}

use cybird::{Effect, EffectTrigger, EffectType, EffectValue, Formula, Upgrade};

#[test]
fn formula_values() {
    assert_eq!(Formula::linear(2, 1).eval(0), 1);
    assert_eq!(Formula::linear(2, 1).eval(5), 11);
    assert_eq!(Formula::fixed(100_000).eval(42), 100_000);
    assert_eq!(Formula::quadratic(1, 0, 0).eval(12), 144);
    assert_eq!(Formula::quadratic(3, 2, 1).eval(10), 321);
}

#[test]
fn formula_saturates() {
    assert_eq!(Formula::quadratic(1, 0, 0).eval(u32::MAX), u32::MAX);
    assert_eq!(Formula::linear(u32::MAX, 1).eval(1), u32::MAX);
    assert_eq!(Formula::fixed(u32::MAX).eval(0), u32::MAX);
}

#[test]
fn effect_to_string_add() {
    let e = Effect { trigger: EffectTrigger::Click, value: EffectValue::Add(Formula::linear(10, 0)) };
    assert_eq!(e.to_string(3), "trigger: Click, value: \"add: 30\"");
    assert_eq!(e.to_string(0), "trigger: Click, value: \"add: 0\"");
}

#[test]
fn effect_to_string_multiply_and_prestige() {
    let m = Effect {
        trigger: EffectTrigger::Click,
        value: EffectValue::Multiply(Formula::linear(2, 0)),
    };
    assert_eq!(m.to_string(1234), "trigger: Click, value: \"multiply: 2468\"");
    let p = Effect { trigger: EffectTrigger::Click, value: EffectValue::Prestige };
    assert_eq!(p.to_string(7), "trigger: Click, value: \"prestige\"");
}

#[test]
fn upgrade_debug_string() {
    let u = Upgrade {
        name: "Cookie Prestige".to_string(),
        level: 2,
        stage: 5,
        cost: Formula::fixed(100_000),
        description: "Increases all yields by 2x".to_string(),
        effect_type: EffectType::Multiplicative,
        effects: vec![
            Effect { trigger: EffectTrigger::Click, value: EffectValue::Multiply(Formula::linear(2, 0)) },
            Effect { trigger: EffectTrigger::Click, value: EffectValue::Prestige },
        ],
    };
    assert_eq!(
        u.to_debug_string(),
        "Upgrade { name: \"Cookie Prestige\", level: 2, stage: 5, cost: 100000, \
         effect_type: Multiplicative, effects: [\"trigger: Click, value: \\\"multiply: 4\\\"\", \
         \"trigger: Click, value: \\\"prestige\\\"\"] }"
    );
}

#[test]
fn upgrade_debug_string_escapes_name_and_empty_effects() {
    let u = Upgrade {
        name: "say \"hi\"".to_string(),
        level: 0,
        stage: 1,
        cost: Formula::linear(2, 1),
        description: String::new(),
        effect_type: EffectType::Additive,
        effects: vec![],
    };
    assert_eq!(
        u.to_debug_string(),
        "Upgrade { name: \"say \\\"hi\\\"\", level: 0, stage: 1, cost: 1, effect_type: Additive, effects: [] }"
    );
}

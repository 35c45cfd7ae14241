use cybird::{
    Effect, EffectTrigger, EffectType, EffectValue, Formula, PluginContext, Registrable, Upgrade,
};

fn upgrade(name: &str, level: u32) -> Upgrade {
    Upgrade {
        name: name.to_string(),
        level,
        stage: 1,
        cost: Formula::linear(2, 1),
        description: String::new(),
        effect_type: EffectType::Additive,
        effects: vec![Effect {
            trigger: EffectTrigger::Click,
            value: EffectValue::Add(Formula::linear(1, 0)),
        }],
    }
}

#[test]
fn empty_registry_query_is_empty() {
    let ctx = PluginContext::new();
    assert_eq!(ctx.len(), 0);
    assert!(ctx.get_registrables::<Upgrade>().is_empty());
    let mut ctx = PluginContext::default();
    assert!(ctx.get_registrables_mut::<Upgrade>().is_empty());
}

#[test]
fn query_returns_registrations_in_order() {
    let mut ctx = PluginContext::new();
    ctx.register(upgrade("first", 1));
    ctx.register(upgrade("second", 2));
    ctx.register(upgrade("third", 3));
    assert_eq!(ctx.len(), 3);
    let all = ctx.get_registrables::<Upgrade>();
    let names: Vec<&str> = all.iter().map(|u| u.name.as_str()).collect();
    assert_eq!(names, vec!["first", "second", "third"]);
    let levels: Vec<u32> = all.iter().map(|u| u.level).collect();
    assert_eq!(levels, vec![1, 2, 3]);
}

#[test]
fn same_name_registered_twice_keeps_both() {
    let mut ctx = PluginContext::new();
    ctx.register(upgrade("twin", 1));
    ctx.register(upgrade("twin", 2));
    let all = ctx.get_registrables::<Upgrade>();
    assert_eq!(all.len(), 2);
    assert_eq!(all[0].level, 1);
    assert_eq!(all[1].level, 2);
}

#[test]
fn mutable_query_writes_are_visible() {
    let mut ctx = PluginContext::new();
    ctx.register(upgrade("a", 0));
    ctx.register(upgrade("b", 0));
    for (i, u) in ctx.get_registrables_mut::<Upgrade>().into_iter().enumerate() {
        u.level = 10 + i as u32;
    }
    let levels: Vec<u32> = ctx.get_registrables::<Upgrade>().iter().map(|u| u.level).collect();
    assert_eq!(levels, vec![10, 11]);
}

#[test]
fn round_trip_upgrade_level() {
    let mut ctx = PluginContext::new();
    ctx.register(upgrade("A", 0));
    let all = ctx.get_registrables::<Upgrade>();
    assert_eq!(all.len(), 1);
    assert_eq!(all[0].name, "A");
    assert_eq!(all[0].level, 0);
    let mut refs = ctx.get_registrables_mut::<Upgrade>();
    assert_eq!(refs.len(), 1);
    refs[0].level = 5;
    let all = ctx.get_registrables::<Upgrade>();
    assert_eq!(all.len(), 1);
    assert_eq!(all[0].name, "A");
    assert_eq!(all[0].level, 5);
}

#[test]
fn wrap_and_unwrap_upgrade() {
    let r: Registrable = upgrade("wrapped", 4).into();
    let back: Upgrade = Upgrade::try_from(r).unwrap();
    assert_eq!(back.name, "wrapped");
    assert_eq!(back.level, 4);
    let r = Registrable::from(upgrade("direct", 7));
    match r {
        Registrable::Upgrade(u) => assert_eq!(u.level, 7),
    }
}

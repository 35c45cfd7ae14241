use cybird::game::{apply_transaction, GameState, Purchase, Transaction, PRESTIGE_UPGRADE};
use cybird::{Effect, EffectTrigger, EffectType, EffectValue, Formula, Upgrade, Upgrades};

fn started() -> GameState {
    let mut state = GameState::default();
    state.register_upgrades();
    state
}

fn levels(state: &GameState) -> Vec<u32> {
    state.context.get_registrables::<Upgrade>().iter().map(|u| u.level).collect()
}

#[test]
fn base_upgrades_in_order() {
    let state = started();
    let ups = state.context.get_registrables::<Upgrade>();
    let names: Vec<&str> = ups.iter().map(|u| u.name.as_str()).collect();
    assert_eq!(names, vec!["Cookie Recycler", "Cookie Accelerator", "Cookie Prestige"]);
    let stages: Vec<u32> = ups.iter().map(|u| u.stage).collect();
    assert_eq!(stages, vec![1, 2, 5]);
    let costs: Vec<u32> = ups.iter().map(|u| u.cost.eval(u.level)).collect();
    assert_eq!(costs, vec![1, 10, 100_000]);
    assert_eq!(ups[2].effects.len(), 2);
    assert_eq!(ups[2].effect_type, EffectType::Multiplicative);
}

#[test]
fn stage_advances_through_met_thresholds() {
    let mut state = GameState::default();
    assert_eq!(state.advance_stage(9), 0);
    assert_eq!(state.stage, 0);
    assert_eq!(state.advance_stage(10), 1);
    assert_eq!(state.stage, 1);
    assert_eq!(state.advance_stage(5000), 2);
    assert_eq!(state.stage, 3);
    assert_eq!(state.advance_stage(0), 0);
    assert_eq!(state.advance_stage(u32::MAX), 2);
    assert_eq!(state.stage, 5);
    assert_eq!(state.advance_stage(u32::MAX), 0);
}

#[test]
fn transactions() {
    assert_eq!(apply_transaction(5, Transaction::Increase(7)), 12);
    assert_eq!(apply_transaction(5, Transaction::Decrease(3)), 2);
    assert_eq!(apply_transaction(5, Transaction::Decrease(9)), 0);
    assert_eq!(apply_transaction(u32::MAX - 1, Transaction::Increase(5)), u32::MAX);
}

#[test]
fn lookups_by_name() {
    let mut state = started();
    assert_eq!(state.cost_of("Cookie Accelerator"), Some(10));
    assert_eq!(state.level_of("Cookie Accelerator"), Some(0));
    assert_eq!(state.cost_of("Nothing"), None);
    assert_eq!(state.level_of("Nothing"), None);
    assert!(!state.is_unlocked("Cookie Recycler"));
    state.advance_stage(10);
    assert!(state.is_unlocked("Cookie Recycler"));
    assert!(!state.is_unlocked("Cookie Accelerator"));
    assert!(!state.is_unlocked("Nothing"));
}

#[test]
fn purchase_raises_level_when_affordable() {
    let mut state = started();
    assert_eq!(
        state.purchase("Cookie Recycler", 1),
        Some(Purchase { prestige: false, spent: Some(1) })
    );
    assert_eq!(levels(&state), vec![1, 0, 0]);
    assert_eq!(state.cost_of("Cookie Recycler"), Some(3));
    assert_eq!(
        state.purchase("Cookie Recycler", 2),
        Some(Purchase { prestige: false, spent: None })
    );
    assert_eq!(levels(&state), vec![1, 0, 0]);
    assert_eq!(state.purchase("Nothing", 1000), None);
}

#[test]
fn purchase_reports_prestige() {
    let mut state = started();
    assert_eq!(
        state.purchase(PRESTIGE_UPGRADE, 10),
        Some(Purchase { prestige: true, spent: None })
    );
    assert_eq!(
        state.purchase(PRESTIGE_UPGRADE, 100_000),
        Some(Purchase { prestige: true, spent: Some(100_000) })
    );
    assert_eq!(levels(&state), vec![0, 0, 1]);
}

#[test]
fn prestige_resets_all_but_itself() {
    let mut state = started();
    state.purchase("Cookie Recycler", 100);
    state.purchase("Cookie Accelerator", 100);
    state.purchase(PRESTIGE_UPGRADE, 100_000);
    assert_eq!(levels(&state), vec![1, 1, 1]);
    state.apply_prestige();
    assert_eq!(levels(&state), vec![0, 0, 1]);
}

#[test]
fn click_rates() {
    let mut state = started();
    assert_eq!(state.base_rate(), 1);
    assert_eq!(state.multipliers(), vec![0]);
    state.purchase("Cookie Recycler", 100);
    state.purchase("Cookie Recycler", 100);
    state.purchase("Cookie Accelerator", 100);
    assert_eq!(state.base_rate(), 1 + 2 + 10);
    state.purchase(PRESTIGE_UPGRADE, 100_000);
    assert_eq!(state.multipliers(), vec![2]);
}

#[test]
fn effect_becomes_upgrade() {
    let mut ups = Upgrades::new();
    let e = Effect { trigger: EffectTrigger::Click, value: EffectValue::Add(Formula::fixed(3)) };
    e.register_in_context(&mut ups);
    e.register_in_context(&mut ups);
    assert_eq!(ups.len(), 2);
    let made = ups.get("Effect Upgrade 0").unwrap();
    assert_eq!(made.stage, 1);
    assert_eq!(made.cost.eval(50), 100);
    assert_eq!(made.effects, vec![e]);
    assert!(ups.get("Effect Upgrade 1").is_some());
}

fn plain(name: &str, stage: u32, cost: u32) -> Upgrade {
    Upgrade {
        name: name.to_string(),
        level: 0,
        stage,
        cost: Formula::fixed(cost),
        description: String::new(),
        effect_type: EffectType::Additive,
        effects: vec![],
    }
}

#[test]
fn display_order_by_stage_then_cost_then_registration() {
    let mut state = GameState::default();
    state.context.register(plain("late", 3, 5));
    state.context.register(plain("cheap", 1, 2));
    state.context.register(plain("dear", 1, 50));
    state.context.register(plain("tie-a", 2, 7));
    state.context.register(plain("tie-b", 2, 7));
    state.context.register(plain("first", 0, 1000));
    assert_eq!(state.display_order(), vec![5, 1, 2, 3, 4, 0]);
    assert!(GameState::default().display_order().is_empty());
}

#[test]
fn display_order_follows_current_cost() {
    let mut state = GameState::default();
    let mut growing = plain("growing", 1, 0);
    growing.cost = Formula::linear(2, 1);
    state.context.register(growing);
    state.context.register(plain("flat", 1, 4));
    assert_eq!(state.display_order(), vec![0, 1]);
    state.purchase("growing", 100);
    state.purchase("growing", 100);
    assert_eq!(state.cost_of("growing"), Some(5));
    assert_eq!(state.display_order(), vec![1, 0]);
}

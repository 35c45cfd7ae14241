use vstd::prelude::*;

use crate::capability::{Effect, EffectTrigger, EffectType, EffectValue, Upgrade};
use crate::context::PluginContext;
use crate::formula::Formula;

verus! {

/// A plugin: it names itself and registers its capabilities into a registry of
/// type `T`. A failed `load` carries a message.
pub trait Plugin<T> {
    fn author(&self) -> &str;

    fn id(&self) -> &str;

    fn load(&self, ctx: &mut T) -> Result<(), String>;
}

/// A plugin that contributes two late-stage upgrades.
#[derive(Default)]
pub struct Upgrade3;

impl Upgrade3 {
    /// The first upgrade this plugin registers.
    pub fn crumble_decintigrator() -> (r: Upgrade)
        ensures
            r.name@ == "Crumble Decintigrator"@,
            r.level == 0,
            r.stage == 3,
            r.cost == Formula::linear_spec(100, 1),
            r.effect_type == EffectType::Additive,
            r.effects@ == seq![
                Effect { trigger: EffectTrigger::Click, value: EffectValue::Add(Formula::linear_spec(10, 1)) },
            ],
    {
        let mut effects: Vec<Effect> = Vec::new();
        effects.push(Effect { trigger: EffectTrigger::Click, value: EffectValue::Add(Formula::linear(10, 1)) });
        proof {
            assert(effects@ =~= seq![
                Effect { trigger: EffectTrigger::Click, value: EffectValue::Add(Formula::linear_spec(10, 1)) },
            ]);
        }
        Upgrade {
            name: String::from_str("Crumble Decintigrator"),
            level: 0,
            stage: 3,
            cost: Formula::linear(100, 1),
            description: String::new(),
            effect_type: EffectType::Additive,
            effects,
        }
    }

    /// The second upgrade this plugin registers.
    pub fn uber_oven() -> (r: Upgrade)
        ensures
            r.name@ == "Uber Oven"@,
            r.level == 0,
            r.stage == 4,
            r.cost == Formula::quadratic_spec(1, 0, 0),
            r.effect_type == EffectType::Additive,
            r.effects@ == seq![
                Effect { trigger: EffectTrigger::Click, value: EffectValue::Add(Formula::quadratic_spec(1, 0, 0)) },
            ],
    {
        let mut effects: Vec<Effect> = Vec::new();
        effects.push(Effect { trigger: EffectTrigger::Click, value: EffectValue::Add(Formula::quadratic(1, 0, 0)) });
        proof {
            assert(effects@ =~= seq![
                Effect { trigger: EffectTrigger::Click, value: EffectValue::Add(Formula::quadratic_spec(1, 0, 0)) },
            ]);
        }
        Upgrade {
            name: String::from_str("Uber Oven"),
            level: 0,
            stage: 4,
            cost: Formula::quadratic(1, 0, 0),
            description: String::new(),
            effect_type: EffectType::Additive,
            effects,
        }
    }
}

impl Plugin<PluginContext> for Upgrade3 {
    fn author(&self) -> &str {
        "jprugel"
    }

    fn id(&self) -> &str {
        "upgrade3"
    }

    fn load(&self, ctx: &mut PluginContext) -> Result<(), String> {
        ctx.register(Upgrade3::crumble_decintigrator());
        ctx.register(Upgrade3::uber_oven());
        Ok(())
    }
}

} // verus!

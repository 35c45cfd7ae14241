use vstd::prelude::*;

use crate::capability::{Effect, EffectTrigger, EffectType, EffectValue, Upgrade};
use crate::context::{tagged, PluginContext};
use crate::formula::{formula_at, Formula};

verus! {

/// The last stage of the game.
pub const FINAL_STAGE: u32 = 5;

/// The score that unlocks the stage after `stage`.
pub open spec fn stage_threshold(stage: nat) -> nat {
    if stage == 0 {
        10
    } else if stage == 1 {
        100
    } else if stage == 2 {
        1000
    } else if stage == 3 {
        10000
    } else {
        100000
    }
}

/// The stage reached from `stage` with `score`: each stage whose threshold the
/// score meets is passed, up to the last stage.
pub open spec fn stage_after(score: nat, stage: nat) -> nat
    decreases FINAL_STAGE - stage,
{
    if stage < FINAL_STAGE && score >= stage_threshold(stage) {
        stage_after(score, stage + 1)
    } else {
        stage
    }
}

/// A change of the score.
#[derive(Clone, Copy, Debug, PartialEq, Eq, Structural)]
pub enum Transaction {
    Increase(u32),
    Decrease(u32),
}

/// The score after a transaction: an increase saturates at `u32::MAX`, a
/// decrease stops at zero.
pub open spec fn score_after(score: u32, t: Transaction) -> u32 {
    match t {
        Transaction::Increase(amount) => if score + amount > u32::MAX {
            u32::MAX
        } else {
            (score + amount) as u32
        },
        Transaction::Decrease(amount) => if score >= amount {
            (score - amount) as u32
        } else {
            0
        },
    }
}

/// Applies a transaction to a score.
pub fn apply_transaction(score: u32, t: Transaction) -> (r: u32)
    ensures
        r == score_after(score, t),
{
    match t {
        Transaction::Increase(amount) => score.saturating_add(amount),
        Transaction::Decrease(amount) => if score >= amount {
            score - amount
        } else {
            0
        },
    }
}

/// The position of the first upgrade of `us` named `name`.
pub open spec fn find_named(us: Seq<Upgrade>, name: Seq<char>) -> Option<int>
    decreases us.len(),
{
    if us.len() == 0 {
        None
    } else {
        match find_named(us.drop_last(), name) {
            Some(i) => Some(i),
            None => if us.last().name@ == name {
                Some(us.len() - 1)
            } else {
                None
            },
        }
    }
}

/// `find_named` finds the first upgrade of that name, if there is one.
pub proof fn lemma_find_named(us: Seq<Upgrade>, name: Seq<char>, i: int)
    requires
        0 <= i <= us.len(),
        forall|j: int| 0 <= j < i ==> us[j].name@ != name,
    ensures
        i < us.len() && us[i].name@ == name ==> find_named(us, name) == Some(i),
        i == us.len() ==> find_named(us, name) is None,
    decreases us.len(),
{
    if us.len() > 0 {
        if i < us.len() {
            lemma_find_named(us.drop_last(), name, i);
        } else {
            lemma_find_named(us.drop_last(), name, i - 1);
        }
    }
}

/// What `find_named` returns is a position of an upgrade of that name.
pub proof fn lemma_find_named_in_range(us: Seq<Upgrade>, name: Seq<char>)
    ensures
        find_named(us, name) is Some ==> 0 <= find_named(us, name)->Some_0 < us.len() && us[find_named(
            us,
            name,
        )->Some_0].name@ == name,
    decreases us.len(),
{
    if us.len() > 0 {
        lemma_find_named_in_range(us.drop_last(), name);
    }
}

/// `u` with its level set to `level`.
pub open spec fn with_level(u: Upgrade, level: u32) -> Upgrade {
    Upgrade {
        name: u.name,
        level: level,
        stage: u.stage,
        cost: u.cost,
        description: u.description,
        effect_type: u.effect_type,
        effects: u.effects,
    }
}

/// The name of the upgrade that a prestige leaves as it is.
pub const PRESTIGE_UPGRADE: &'static str = "Cookie Prestige";

/// An upgrade after a prestige: back to level zero, unless it is the prestige
/// upgrade itself.
pub open spec fn after_prestige(u: Upgrade) -> Upgrade {
    if u.name@ == PRESTIGE_UPGRADE@ {
        u
    } else {
        with_level(u, 0)
    }
}

/// Whether some effect of `es` is a prestige.
pub open spec fn has_prestige(es: Seq<Effect>) -> bool {
    exists|k: int| 0 <= k < es.len() && es[k].value == EffectValue::Prestige
}

/// What buying a level of an upgrade did: whether the upgrade triggers a
/// prestige, and what it cost, when the score sufficed.
#[derive(Clone, Copy, Debug, PartialEq, Eq, Structural)]
pub struct Purchase {
    pub prestige: bool,
    pub spent: Option<u32>,
}

/// What an upgrade adds to the base yield of a click: the value of its first
/// effect, when the upgrade is additive and that effect adds.
pub open spec fn additive_bonus(u: Upgrade) -> nat {
    if u.effect_type == EffectType::Additive && u.effects@.len() > 0 {
        match u.effects@[0].value {
            EffectValue::Add(f) => formula_at(f, u.level as nat) as nat,
            _ => 0,
        }
    } else {
        0
    }
}

/// The sum of the additive bonuses of `us`.
pub open spec fn bonus_sum(us: Seq<Upgrade>) -> nat
    decreases us.len(),
{
    if us.len() == 0 {
        0
    } else {
        bonus_sum(us.drop_last()) + additive_bonus(us.last())
    }
}

/// The factor of a multiplicative upgrade: the value of its first effect, when
/// that effect multiplies.
pub open spec fn factor_of(u: Upgrade) -> Option<u32> {
    if u.effect_type == EffectType::Multiplicative && u.effects@.len() > 0 {
        match u.effects@[0].value {
            EffectValue::Multiply(f) => Some(formula_at(f, u.level as nat)),
            _ => None,
        }
    } else {
        None
    }
}

/// The factors of the multiplicative upgrades among `us`, in order.
pub open spec fn factors(us: Seq<Upgrade>) -> Seq<u32>
    decreases us.len(),
{
    if us.len() == 0 {
        Seq::empty()
    } else {
        match factor_of(us.last()) {
            Some(f) => factors(us.drop_last()).push(f),
            None => factors(us.drop_last()),
        }
    }
}

/// Whether `u` is a fresh upgrade, at level zero, with these fields.
pub open spec fn fresh_upgrade(
    u: Upgrade,
    name: Seq<char>,
    stage: u32,
    cost: Formula,
    description: Seq<char>,
    effect_type: EffectType,
    effects: Seq<Effect>,
) -> bool {
    &&& u.name@ == name
    &&& u.level == 0
    &&& u.stage == stage
    &&& u.cost == cost
    &&& u.description@ == description
    &&& u.effect_type == effect_type
    &&& u.effects@ == effects
}

/// The upgrade that adds its level to each click.
pub open spec fn is_cookie_recycler(u: Upgrade) -> bool {
    fresh_upgrade(
        u,
        "Cookie Recycler"@,
        1,
        Formula::linear_spec(2, 1),
        "Increase cookie click yield by 1 per level."@,
        EffectType::Additive,
        seq![Effect { trigger: EffectTrigger::Click, value: EffectValue::Add(Formula::linear_spec(1, 0)) }],
    )
}

/// The upgrade that adds ten times its level to each click.
pub open spec fn is_cookie_accelerator(u: Upgrade) -> bool {
    fresh_upgrade(
        u,
        "Cookie Accelerator"@,
        2,
        Formula::linear_spec(10, 10),
        "Increase cookie click yield by 10 per level."@,
        EffectType::Additive,
        seq![Effect { trigger: EffectTrigger::Click, value: EffectValue::Add(Formula::linear_spec(10, 0)) }],
    )
}

/// The upgrade that multiplies the yield and triggers a prestige.
pub open spec fn is_cookie_prestige(u: Upgrade) -> bool {
    fresh_upgrade(
        u,
        PRESTIGE_UPGRADE@,
        5,
        Formula::fixed_spec(100000),
        "Increases all yields by 2x"@,
        EffectType::Multiplicative,
        seq![
            Effect { trigger: EffectTrigger::Click, value: EffectValue::Multiply(Formula::linear_spec(2, 0)) },
            Effect { trigger: EffectTrigger::Click, value: EffectValue::Prestige },
        ],
    )
}

fn one_effect(e: Effect) -> (r: Vec<Effect>)
    ensures
        r@ == seq![e],
{
    let mut v: Vec<Effect> = Vec::new();
    v.push(e);
    proof {
        assert(v@ =~= seq![e]);
    }
    v
}

/// A fresh Cookie Recycler.
pub fn cookie_recycler() -> (r: Upgrade)
    ensures
        is_cookie_recycler(r),
{
    Upgrade {
        name: String::from_str("Cookie Recycler"),
        level: 0,
        stage: 1,
        cost: Formula::linear(2, 1),
        description: String::from_str("Increase cookie click yield by 1 per level."),
        effect_type: EffectType::Additive,
        effects: one_effect(Effect { trigger: EffectTrigger::Click, value: EffectValue::Add(Formula::linear(1, 0)) }),
    }
}

/// A fresh Cookie Accelerator.
pub fn cookie_accelerator() -> (r: Upgrade)
    ensures
        is_cookie_accelerator(r),
{
    Upgrade {
        name: String::from_str("Cookie Accelerator"),
        level: 0,
        stage: 2,
        cost: Formula::linear(10, 10),
        description: String::from_str("Increase cookie click yield by 10 per level."),
        effect_type: EffectType::Additive,
        effects: one_effect(Effect { trigger: EffectTrigger::Click, value: EffectValue::Add(Formula::linear(10, 0)) }),
    }
}

/// A fresh Cookie Prestige.
pub fn cookie_prestige() -> (r: Upgrade)
    ensures
        is_cookie_prestige(r),
{
    let mut effects = one_effect(Effect { trigger: EffectTrigger::Click, value: EffectValue::Multiply(Formula::linear(2, 0)) });
    effects.push(Effect { trigger: EffectTrigger::Click, value: EffectValue::Prestige });
    proof {
        assert(effects@ =~= seq![
            Effect { trigger: EffectTrigger::Click, value: EffectValue::Multiply(Formula::linear_spec(2, 0)) },
            Effect { trigger: EffectTrigger::Click, value: EffectValue::Prestige },
        ]);
    }
    Upgrade {
        name: String::from_str(PRESTIGE_UPGRADE),
        level: 0,
        stage: 5,
        cost: Formula::fixed(100000),
        description: String::from_str("Increases all yields by 2x"),
        effect_type: EffectType::Multiplicative,
        effects,
    }
}

/// The key by which upgrades are listed: stage, then price of the next level.
pub open spec fn listing_key(u: Upgrade) -> (u32, u32) {
    (u.stage, formula_at(u.cost, u.level as nat))
}

/// Whether key `a` comes strictly before key `b`.
pub open spec fn key_lt(a: (u32, u32), b: (u32, u32)) -> bool {
    a.0 < b.0 || (a.0 == b.0 && a.1 < b.1)
}

/// Whether the upgrade at index `a` of `us` is listed before the one at index `b`:
/// by key, and by registration order among equal keys.
pub open spec fn listed_before(us: Seq<Upgrade>, a: int, b: int) -> bool {
    key_lt(listing_key(us[a]), listing_key(us[b])) || (listing_key(us[a]) == listing_key(us[b])
        && a < b)
}

/// The state of a game: the registry of upgrades and the stage reached.
pub struct GameState {
    pub context: PluginContext,
    pub stage: u32,
}

impl Default for GameState {
    fn default() -> (r: GameState)
        ensures
            r.context@ == Seq::<crate::capability::Registrable>::empty(),
            r.stage == 0,
    {
        GameState { context: PluginContext::new(), stage: 0 }
    }
}

impl GameState {
    /// The upgrades in the registry, in registration order.
    pub open spec fn upgrades(&self) -> Seq<Upgrade> {
        tagged::<Upgrade>(self.context@)
    }

    /// Advances the stage as far as `score` allows; returns how many stages were
    /// passed, one announcement each.
    pub fn advance_stage(&mut self, score: u32) -> (passed: u32)
        ensures
            final(self).stage == stage_after(score as nat, old(self).stage as nat),
            passed == final(self).stage - old(self).stage,
            final(self).context == old(self).context,
    {
        let start = self.stage;
        while self.stage < FINAL_STAGE && score as u64 >= threshold(self.stage)
            invariant
                start <= self.stage,
                stage_after(score as nat, self.stage as nat) == stage_after(score as nat, start as nat),
                self.context == old(self).context,
                start == old(self).stage,
            decreases FINAL_STAGE - self.stage,
        {
            self.stage = self.stage + 1;
        }
        self.stage - start
    }

    /// The index in `upgrades` of the first upgrade named `name`.
    fn position_of(&self, name: &String) -> (r: Option<usize>)
        ensures
            r is None <==> find_named(self.upgrades(), name@) is None,
            r is Some ==> find_named(self.upgrades(), name@) == Some(r->Some_0 as int),
    {
        let all = self.context.get_registrables::<Upgrade>();
        let mut i: usize = 0;
        while i < all.len()
            invariant
                i <= all@.len(),
                all@.len() == self.upgrades().len(),
                forall|j: int| 0 <= j < all@.len() ==> *all@[j] == self.upgrades()[j],
                forall|j: int| 0 <= j < i ==> self.upgrades()[j].name@ != name@,
            decreases all@.len() - i,
        {
            if all[i].name == *name {
                proof {
                    lemma_find_named(self.upgrades(), name@, i as int);
                }
                return Some(i);
            }
            i = i + 1;
        }
        proof {
            lemma_find_named(self.upgrades(), name@, i as int);
        }
        None
    }

    /// Whether the first upgrade named `name` belongs to the current stage, so that
    /// it is shown.
    pub fn is_unlocked(&self, name: &str) -> (r: bool)
        ensures
            r == match find_named(self.upgrades(), name@) {
                Some(i) => self.upgrades()[i].stage == self.stage,
                None => false,
            },
    {
        let key = name.to_owned();
        proof {
            lemma_find_named_in_range(self.upgrades(), name@);
        }
        match self.position_of(&key) {
            Some(i) => {
                let all = self.context.get_registrables::<Upgrade>();
                all[i].stage == self.stage
            },
            None => false,
        }
    }

    /// The level of the first upgrade named `name`.
    pub fn level_of(&self, name: &str) -> (r: Option<u32>)
        ensures
            r == match find_named(self.upgrades(), name@) {
                Some(i) => Some(self.upgrades()[i].level),
                None => None::<u32>,
            },
    {
        let key = name.to_owned();
        proof {
            lemma_find_named_in_range(self.upgrades(), name@);
        }
        match self.position_of(&key) {
            Some(i) => {
                let all = self.context.get_registrables::<Upgrade>();
                Some(all[i].level)
            },
            None => None,
        }
    }

    /// The price of the next level of the first upgrade named `name`.
    pub fn cost_of(&self, name: &str) -> (r: Option<u32>)
        ensures
            r == match find_named(self.upgrades(), name@) {
                Some(i) => Some(formula_at(self.upgrades()[i].cost, self.upgrades()[i].level as nat)),
                None => None::<u32>,
            },
    {
        let key = name.to_owned();
        proof {
            lemma_find_named_in_range(self.upgrades(), name@);
        }
        match self.position_of(&key) {
            Some(i) => {
                let all = self.context.get_registrables::<Upgrade>();
                Some(all[i].cost.eval(all[i].level))
            },
            None => None,
        }
    }

    /// Registers the game's own upgrades: Cookie Recycler, Cookie Accelerator and
    /// Cookie Prestige, in that order, after what the registry holds.
    pub fn register_upgrades(&mut self)
        ensures
            final(self).stage == old(self).stage,
            final(self).context@.len() == old(self).context@.len() + 3,
            final(self).context@.take(old(self).context@.len() as int) == old(self).context@,
            ({
                let n = old(self).context@.len() as int;
                let ups = final(self).context@;
                &&& ups[n] is Upgrade && is_cookie_recycler(ups[n]->Upgrade_0)
                &&& ups[n + 1] is Upgrade && is_cookie_accelerator(ups[n + 1]->Upgrade_0)
                &&& ups[n + 2] is Upgrade && is_cookie_prestige(ups[n + 2]->Upgrade_0)
            }),
    {
        let ghost s0 = self.context@;
        self.context.register(cookie_recycler());
        let ghost s1 = self.context@;
        self.context.register(cookie_accelerator());
        let ghost s2 = self.context@;
        self.context.register(cookie_prestige());
        proof {
            let n = s0.len() as int;
            assert(s1.take(n) =~= s0);
            assert(s2.take(n + 1) =~= s1);
            assert(self.context@.take(n + 2) =~= s2);
            assert(self.context@.take(n) =~= s0);
            assert(self.context@[n] == s2[n]);
            assert(s2[n] == s1[n]);
            assert(self.context@[n + 1] == s2[n + 1]);
        }
    }

    /// The order in which the upgrades are listed, as indices into the registered
    /// upgrades: by stage, then by the price of their next level, and in
    /// registration order where both are equal.
    pub fn display_order(&self) -> (r: Vec<usize>)
        ensures
            r@.len() == self.upgrades().len(),
            forall|k: int| 0 <= k < r@.len() ==> r@[k] < self.upgrades().len(),
            forall|k1: int, k2: int|
                0 <= k1 < k2 < r@.len() ==> listed_before(
                    self.upgrades(),
                    r@[k1] as int,
                    r@[k2] as int,
                ),
    {
        let all = self.context.get_registrables::<Upgrade>();
        let ghost us = self.upgrades();
        let mut keys: Vec<(u32, u32)> = Vec::new();
        let mut j: usize = 0;
        while j < all.len()
            invariant
                j <= all@.len(),
                all@.len() == us.len(),
                forall|m: int| 0 <= m < all@.len() ==> *all@[m] == us[m],
                keys@.len() == j,
                forall|m: int| 0 <= m < j ==> keys@[m] == listing_key(us[m]),
            decreases all@.len() - j,
        {
            keys.push((all[j].stage, all[j].cost.eval(all[j].level)));
            j = j + 1;
        }
        let n = keys.len();
        let mut out: Vec<usize> = Vec::new();
        let mut i: usize = 0;
        while i < n
            invariant
                n == keys@.len(),
                n == us.len(),
                forall|m: int| 0 <= m < n ==> keys@[m] == listing_key(us[m]),
                i <= n,
                out@.len() == i,
                forall|k: int| 0 <= k < out@.len() ==> out@[k] < i,
                forall|k1: int, k2: int|
                    0 <= k1 < k2 < out@.len() ==> listed_before(us, out@[k1] as int, out@[k2] as int),
            decreases n - i,
        {
            let key = keys[i];
            let mut p: usize = 0;
            while p < out.len() && !key_lt_exec(key, keys[out[p]])
                invariant
                    n == keys@.len(),
                    forall|k: int| 0 <= k < out@.len() ==> out@[k] < i,
                    i < n,
                    p <= out@.len(),
                    key == keys@[i as int],
                    forall|k: int| 0 <= k < p ==> !key_lt(key, keys@[out@[k] as int]),
                decreases out@.len() - p,
            {
                p = p + 1;
            }
            let ghost before = out@;
            proof {
                assert forall|k: int| p <= k < before.len() implies key_lt(
                    key,
                    keys@[before[k] as int],
                ) by {
                    if k > p {
                        assert(listed_before(us, before[p as int] as int, before[k] as int));
                    }
                }
            }
            out.insert(p, i);
            proof {
                assert forall|k1: int, k2: int|
                    0 <= k1 < k2 < out@.len() implies listed_before(
                    us,
                    out@[k1] as int,
                    out@[k2] as int,
                ) by {
                    if k2 < p {
                        assert(out@[k1] == before[k1] && out@[k2] == before[k2]);
                    } else if k2 == p {
                        assert(out@[k1] == before[k1]);
                    } else if k1 == p {
                        assert(out@[k2] == before[k2 - 1]);
                    } else if k1 < p {
                        assert(out@[k1] == before[k1] && out@[k2] == before[k2 - 1]);
                    } else {
                        assert(out@[k1] == before[k1 - 1] && out@[k2] == before[k2 - 1]);
                    }
                }
                assert forall|k: int| 0 <= k < out@.len() implies out@[k] < i + 1 by {
                    if k < p {
                        assert(out@[k] == before[k]);
                    } else if k > p {
                        assert(out@[k] == before[k - 1]);
                    }
                }
            }
            i = i + 1;
        }
        out
    }

    /// The base yield of a click: one, plus the additive bonus of every upgrade,
    /// saturating at `u32::MAX`.
    pub fn base_rate(&self) -> (r: u32)
        ensures
            r == if 1 + bonus_sum(self.upgrades()) > u32::MAX {
                u32::MAX
            } else {
                (1 + bonus_sum(self.upgrades())) as u32
            },
    {
        let all = self.context.get_registrables::<Upgrade>();
        let ghost us = self.upgrades();
        let mut acc: u32 = 1;
        let mut i: usize = 0;
        while i < all.len()
            invariant
                i <= all@.len(),
                all@.len() == us.len(),
                forall|j: int| 0 <= j < all@.len() ==> *all@[j] == us[j],
                acc == if 1 + bonus_sum(us.take(i as int)) > u32::MAX {
                    u32::MAX
                } else {
                    (1 + bonus_sum(us.take(i as int))) as u32
                },
            decreases all@.len() - i,
        {
            proof {
                assert(us.take(i + 1).drop_last() =~= us.take(i as int));
            }
            let u = all[i];
            if u.effect_type == EffectType::Additive && u.effects.len() > 0 {
                match u.effects[0].value {
                    EffectValue::Add(f) => {
                        acc = acc.saturating_add(f.eval(u.level));
                    },
                    _ => {},
                }
            }
            i = i + 1;
        }
        proof {
            assert(us.take(i as int) =~= us);
        }
        acc
    }

    /// The factors of the multiplicative upgrades, in registration order; a click
    /// yields the base rate times their product, and never less than the base rate.
    pub fn multipliers(&self) -> (r: Vec<u32>)
        ensures
            r@ == factors(self.upgrades()),
    {
        let all = self.context.get_registrables::<Upgrade>();
        let ghost us = self.upgrades();
        let mut out: Vec<u32> = Vec::new();
        let mut i: usize = 0;
        while i < all.len()
            invariant
                i <= all@.len(),
                all@.len() == us.len(),
                forall|j: int| 0 <= j < all@.len() ==> *all@[j] == us[j],
                out@ == factors(us.take(i as int)),
            decreases all@.len() - i,
        {
            proof {
                assert(us.take(i + 1).drop_last() =~= us.take(i as int));
            }
            let u = all[i];
            if u.effect_type == EffectType::Multiplicative && u.effects.len() > 0 {
                match u.effects[0].value {
                    EffectValue::Multiply(f) => {
                        out.push(f.eval(u.level));
                    },
                    _ => {},
                }
            }
            i = i + 1;
        }
        proof {
            assert(us.take(i as int) =~= us);
        }
        out
    }

    /// Buys the next level of the first upgrade named `name` with `score`: says
    /// whether that upgrade triggers a prestige and, when the score covers its
    /// cost, raises its level by one (saturating) and reports the cost spent.
    /// Without such an upgrade nothing happens.
    pub fn purchase(&mut self, name: &str, score: u32) -> (r: Option<Purchase>)
        ensures
            final(self).stage == old(self).stage,
            find_named(old(self).upgrades(), name@) is None ==> r is None && final(self).context@
                == old(self).context@,
            find_named(old(self).upgrades(), name@) is Some ==> ({
                let i = find_named(old(self).upgrades(), name@)->Some_0;
                let u = old(self).upgrades()[i];
                let cost = formula_at(u.cost, u.level as nat);
                &&& r == Some(Purchase {
                    prestige: has_prestige(u.effects@),
                    spent: if score >= cost { Some(cost) } else { None },
                })
                &&& score >= cost ==> crate::context::rewritten::<Upgrade>(
                    old(self).context@,
                    old(self).upgrades().update(i, with_level(u, if u.level == u32::MAX { u32::MAX } else { (u.level + 1) as u32 })),
                    final(self).context@,
                )
                &&& score < cost ==> final(self).context@ == old(self).context@
            }),
    {
        let key = name.to_owned();
        proof {
            lemma_find_named_in_range(self.upgrades(), name@);
        }
        let i = match self.position_of(&key) {
            Some(i) => i,
            None => return None,
        };
        let (cost, prestige) = {
            let all = self.context.get_registrables::<Upgrade>();
            let u = all[i];
            let cost = u.cost.eval(u.level);
            let mut prestige = false;
            let mut k: usize = 0;
            while k < u.effects.len()
                invariant
                    *u == old(self).upgrades()[i as int],
                    k <= u.effects@.len(),
                    prestige == exists|m: int| 0 <= m < k && u.effects@[m].value == EffectValue::Prestige,
                decreases u.effects@.len() - k,
            {
                if u.effects[k].value == EffectValue::Prestige {
                    prestige = true;
                }
                k = k + 1;
            }
            (cost, prestige)
        };
        if score < cost {
            return Some(Purchase { prestige, spent: None });
        }
        let mut refs = self.context.get_registrables_mut::<Upgrade>();
        let ghost all = refs@;
        let r = refs.remove(i);
        proof {
            assert(r == all[i as int]);
            assert(refs@ =~= all.remove(i as int));
        }
        r.level = r.level.saturating_add(1);
        proof {
            assert(has_resolved(r));
            assert(has_resolved(refs));
            assert forall|j: int| 0 <= j < all.len() implies *final(all[j])
                == old(self).upgrades().update(
                i as int,
                with_level(
                    old(self).upgrades()[i as int],
                    if old(self).upgrades()[i as int].level == u32::MAX {
                        u32::MAX
                    } else {
                        (old(self).upgrades()[i as int].level + 1) as u32
                    },
                ),
            )[j] by {
                if j < i {
                    assert(all[j] == refs@[j]);
                } else if j > i {
                    assert(all[j] == refs@[j - 1]);
                }
            }
        }
        proof {
            let u = old(self).upgrades()[i as int];
            let bumped = if u.level == u32::MAX { u32::MAX } else { (u.level + 1) as u32 };
            assert(prestige == has_prestige(u.effects@));
            assert(cost == formula_at(u.cost, u.level as nat));
            assert(Seq::new(all.len(), |j: int| *final(all[j])) =~= old(self).upgrades().update(
                i as int,
                with_level(u, bumped),
            ));
        }
        Some(Purchase { prestige, spent: Some(cost) })
    }

    /// Resets the level of every upgrade but the prestige upgrade to zero.
    pub fn apply_prestige(&mut self)
        ensures
            final(self).stage == old(self).stage,
            crate::context::rewritten::<Upgrade>(
                old(self).context@,
                old(self).upgrades().map_values(|u: Upgrade| after_prestige(u)),
                final(self).context@,
            ),
    {
        let keep = String::from_str(PRESTIGE_UPGRADE);
        let mut refs = self.context.get_registrables_mut::<Upgrade>();
        let ghost all = refs@;
        while refs.len() > 0
            invariant
                keep@ == PRESTIGE_UPGRADE@,
                refs@ == all.take(refs@.len() as int),
                refs@.len() <= all.len(),
                forall|j: int| 0 <= j < all.len() ==> *all[j] == old(self).upgrades()[j],
                forall|j: int|
                    refs@.len() <= j < all.len() ==> *final(all[j]) == after_prestige(*all[j]),
            decreases refs@.len(),
        {
            let ghost n = refs@.len() as int;
            let r = refs.pop().unwrap();
            proof {
                assert(refs@ =~= all.take(n - 1));
                assert(r == all[n - 1]);
            }
            let ghost before = *r;
            if !(r.name == keep) {
                r.level = 0;
            }
            proof {
                assert(*r == after_prestige(before));
                assert(has_resolved(r));
            }
        }
        proof {
            assert(Seq::new(all.len(), |j: int| *final(all[j])) =~= old(self).upgrades().map_values(
                |u: Upgrade| after_prestige(u),
            ));
        }
    }
}

fn key_lt_exec(a: (u32, u32), b: (u32, u32)) -> (r: bool)
    ensures
        r == key_lt(a, b),
{
    a.0 < b.0 || (a.0 == b.0 && a.1 < b.1)
}

fn threshold(stage: u32) -> (r: u64)
    ensures
        r == stage_threshold(stage as nat),
{
    if stage == 0 {
        10
    } else if stage == 1 {
        100
    } else if stage == 2 {
        1000
    } else if stage == 3 {
        10000
    } else {
        100000
    }
}

} // verus!

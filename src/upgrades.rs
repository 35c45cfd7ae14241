use vstd::prelude::*;

use crate::capability::{Effect, EffectType, Upgrade};
use crate::formula::Formula;
use crate::text::{decimal, push_decimal};

verus! {

/// Whether `key` occurs in `keys`.
pub open spec fn has_key(keys: Seq<Seq<char>>, key: Seq<char>) -> bool {
    exists|i: int| 0 <= i < keys.len() && keys[i] == key
}

/// Mutable references to every element of `v`, in order; what is written through
/// the `i`-th one is the `i`-th element afterwards.
fn refs_mut<'a, T>(v: &'a mut Vec<T>) -> (r: Vec<&'a mut T>)
    ensures
        r@.len() == old(v)@.len(),
        forall|i: int| 0 <= i < r@.len() ==> *r@[i] == old(v)@[i],
        final(v)@.len() == old(v)@.len(),
        forall|i: int| 0 <= i < r@.len() ==> final(v)@[i] == *final(r@[i]),
{
    let ghost orig = old(v)@;
    let ghost fin = final(v)@;
    let mut out: Vec<&'a mut T> = Vec::new();
    let mut rest: &'a mut [T] = v.as_mut_slice();
    while rest.len() > 0
        invariant
            out@.len() + rest@.len() == orig.len(),
            forall|i: int| 0 <= i < out@.len() ==> *out@[i] == orig[i],
            rest@ == orig.subrange(out@.len() as int, orig.len() as int),
            fin.len() == out@.len() + final(rest)@.len(),
            forall|i: int| 0 <= i < out@.len() ==> fin[i] == *final(out@[i]),
            forall|i: int|
                0 <= i < final(rest)@.len() ==> fin[out@.len() + i] == final(rest)@[i],
        decreases rest@.len(),
    {
        let ghost k = out@.len();
        let ghost fr0 = final(rest)@;
        let (head, tail) = rest.split_at_mut(1);
        let ghost fh = final(head)@;
        let x = { head }.first_mut().unwrap();
        let ghost ft = final(tail)@;
        let ghost fx = *final(x);
        out.push(x);
        rest = tail;
        proof {
            assert(fh[0] == fx);
            assert(fin[k + 0int] == fr0[0]);
            assert(forall|i: int| 0 <= i < ft.len() ==> fr0[1 + i] == ft[i]);
        }
    }
    out
}

/// Upgrades by name. A name occurs once; registering a name again replaces its
/// upgrade in place, and a new name goes after all earlier ones.
pub struct Upgrades {
    names: Vec<String>,
    entries: Vec<Upgrade>,
}

impl Default for Upgrades {
    fn default() -> (r: Upgrades)
        ensures
            r.wf(),
            r.key_seq() == Seq::<Seq<char>>::empty(),
            r.value_seq() == Seq::<Upgrade>::empty(),
    {
        Upgrades::new()
    }
}

impl Upgrades {
    /// The names, in the order in which they were first registered.
    pub closed spec fn key_seq(&self) -> Seq<Seq<char>> {
        self.names@.map_values(|s: String| s@)
    }

    /// The upgrades, each at the position of its name in `key_seq`.
    pub closed spec fn value_seq(&self) -> Seq<Upgrade> {
        self.entries@
    }

    /// One upgrade per name, and each name once.
    pub closed spec fn wf(&self) -> bool {
        &&& self.names@.len() == self.entries@.len()
        &&& forall|i: int, j: int|
            0 <= i < j < self.names@.len() ==> #[trigger] self.names@[i]@ != #[trigger] self.names@[j]@
    }

    /// An empty collection.
    pub fn new() -> (r: Upgrades)
        ensures
            r.wf(),
            r.key_seq() == Seq::<Seq<char>>::empty(),
            r.value_seq() == Seq::<Upgrade>::empty(),
    {
        let r = Upgrades { names: Vec::new(), entries: Vec::new() };
        proof {
            assert(r.key_seq() =~= Seq::<Seq<char>>::empty());
        }
        r
    }

    /// How many names are registered.
    pub fn len(&self) -> (r: usize)
        requires
            self.wf(),
        ensures
            r == self.key_seq().len(),
            r == self.value_seq().len(),
    {
        self.entries.len()
    }

    /// The position of `key`, if it is registered.
    fn position(&self, key: &String) -> (r: Option<usize>)
        requires
            self.wf(),
        ensures
            r is None <==> !has_key(self.key_seq(), key@),
            r is Some ==> r.unwrap() < self.key_seq().len() && self.key_seq()[r.unwrap() as int] == key@,
    {
        let mut i: usize = 0;
        while i < self.names.len()
            invariant
                self.wf(),
                i <= self.names@.len(),
                forall|j: int| 0 <= j < i ==> self.key_seq()[j] != key@,
            decreases self.names@.len() - i,
        {
            if self.names[i] == *key {
                proof {
                    assert(self.key_seq()[i as int] == key@);
                }
                return Some(i);
            }
            i = i + 1;
        }
        None
    }

    /// Registers `upgrade` under its name, replacing an upgrade of the same name.
    pub fn register(&mut self, upgrade: Upgrade)
        requires
            old(self).wf(),
        ensures
            final(self).wf(),
            has_key(old(self).key_seq(), upgrade.name@) ==> final(self).key_seq() == old(self).key_seq()
                && final(self).value_seq().len() == old(self).value_seq().len() && forall|i: int|
                0 <= i < old(self).value_seq().len() ==> #[trigger] final(self).value_seq()[i] == if old(
                    self,
                ).key_seq()[i] == upgrade.name@ {
                    upgrade
                } else {
                    old(self).value_seq()[i]
                },
            !has_key(old(self).key_seq(), upgrade.name@) ==> final(self).key_seq() == old(
                self,
            ).key_seq().push(upgrade.name@) && final(self).value_seq() == old(self).value_seq().push(
                upgrade,
            ),
    {
        let key = upgrade.name.clone();
        match self.position(&key) {
            Some(i) => {
                self.entries.set(i, upgrade);
                proof {
                    assert forall|j: int| 0 <= j < old(self).value_seq().len() implies #[trigger] self.value_seq()[j] == if old(
                        self,
                    ).key_seq()[j] == key@ {
                        upgrade
                    } else {
                        old(self).value_seq()[j]
                    } by {
                        if j != i {
                            assert(self.names@[j]@ != self.names@[i as int]@ || j == i);
                        }
                    }
                }
            },
            None => {
                self.names.push(key);
                self.entries.push(upgrade);
                proof {
                    assert(self.key_seq() =~= old(self).key_seq().push(key@));
                    assert forall|a: int, b: int|
                        0 <= a < b < self.names@.len() implies #[trigger] self.names@[a]@
                        != #[trigger] self.names@[b]@ by {
                        if b == self.names@.len() - 1 {
                            assert(old(self).key_seq()[a] == self.names@[a]@);
                        }
                    }
                }
            },
        }
    }

    /// The upgrade registered under `name`.
    pub fn get(&self, name: &str) -> (r: Option<&Upgrade>)
        requires
            self.wf(),
        ensures
            r is Some <==> has_key(self.key_seq(), name@),
            forall|i: int|
                0 <= i < self.key_seq().len() && self.key_seq()[i] == name@ ==> *r.unwrap()
                    == self.value_seq()[i],
    {
        let key = name.to_owned();
        match self.position(&key) {
            Some(i) => Some(&self.entries[i]),
            None => None,
        }
    }

    /// A mutable reference to the upgrade registered under `name`.
    pub fn get_mut(&mut self, name: &str) -> (r: Option<&mut Upgrade>)
        requires
            old(self).wf(),
        ensures
            r is Some <==> has_key(old(self).key_seq(), name@),
            final(self).wf(),
            final(self).key_seq() == old(self).key_seq(),
            r is None ==> final(self).value_seq() == old(self).value_seq(),
            forall|i: int|
                0 <= i < old(self).key_seq().len() && old(self).key_seq()[i] == name@ ==> *r.unwrap()
                    == old(self).value_seq()[i] && final(self).value_seq() == old(self).value_seq().update(
                    i,
                    *final(r.unwrap()),
                ),
    {
        let key = name.to_owned();
        match self.position(&key) {
            Some(i) => Some(&mut self.entries[i]),
            None => None,
        }
    }
    /// Each name with its upgrade, in the order of `key_seq`.
    pub fn iter(&self) -> (r: Vec<(&String, &Upgrade)>)
        requires
            self.wf(),
        ensures
            r@.len() == self.key_seq().len(),
            forall|i: int|
                0 <= i < r@.len() ==> (#[trigger] r@[i]).0@ == self.key_seq()[i] && *r@[i].1
                    == self.value_seq()[i],
    {
        let mut out: Vec<(&String, &Upgrade)> = Vec::new();
        let mut i: usize = 0;
        while i < self.entries.len()
            invariant
                self.wf(),
                i <= self.entries@.len(),
                out@.len() == i,
                forall|j: int|
                    0 <= j < i ==> (#[trigger] out@[j]).0@ == self.key_seq()[j] && *out@[j].1
                        == self.value_seq()[j],
            decreases self.entries@.len() - i,
        {
            out.push((&self.names[i], &self.entries[i]));
            i = i + 1;
        }
        out
    }

    /// The upgrades, in the order of `key_seq`.
    pub fn values(&self) -> (r: Vec<&Upgrade>)
        requires
            self.wf(),
        ensures
            r@.len() == self.value_seq().len(),
            forall|i: int| 0 <= i < r@.len() ==> *r@[i] == self.value_seq()[i],
    {
        let mut out: Vec<&Upgrade> = Vec::new();
        let mut i: usize = 0;
        while i < self.entries.len()
            invariant
                i <= self.entries@.len(),
                out@.len() == i,
                forall|j: int| 0 <= j < i ==> *out@[j] == self.value_seq()[j],
            decreases self.entries@.len() - i,
        {
            out.push(&self.entries[i]);
            i = i + 1;
        }
        out
    }

    /// Mutable references to the upgrades, in the order of `key_seq`; what is written
    /// through the `i`-th one is the `i`-th upgrade afterwards. Names stay as they are.
    pub fn values_mut<'a>(&'a mut self) -> (r: Vec<&'a mut Upgrade>)
        requires
            old(self).wf(),
        ensures
            final(self).wf(),
            final(self).key_seq() == old(self).key_seq(),
            r@.len() == old(self).value_seq().len(),
            forall|i: int| 0 <= i < r@.len() ==> *r@[i] == old(self).value_seq()[i],
            final(self).value_seq().len() == old(self).value_seq().len(),
            forall|i: int| 0 <= i < r@.len() ==> final(self).value_seq()[i] == *final(r@[i]),
    {
        refs_mut(&mut self.entries)
    }
}

/// The name of the upgrade made from an effect when `n` upgrades are registered.
pub open spec fn effect_upgrade_name(n: nat) -> Seq<char> {
    "Effect Upgrade "@ + decimal(n)
}

/// Whether `u` is the upgrade made from `effect` when `n` upgrades are registered.
pub open spec fn is_effect_upgrade(u: Upgrade, effect: Effect, n: nat) -> bool {
    &&& u.name@ == effect_upgrade_name(n)
    &&& u.level == 0
    &&& u.stage == 1
    &&& u.cost == Formula::fixed_spec(100)
    &&& u.description@ == "Auto-generated from effect by runner"@
    &&& u.effect_type == EffectType::Additive
    &&& u.effects@ == seq![effect]
}

impl Effect {
    /// Registers an upgrade made from this effect alone, named after how many
    /// upgrades there are: level zero, stage one, a cost of 100 at every level.
    pub fn register_in_context(self, upgrades: &mut Upgrades)
        requires
            old(upgrades).wf(),
        ensures
            final(upgrades).wf(),
            ({
                let n = old(upgrades).key_seq().len();
                let name = effect_upgrade_name(n);
                &&& has_key(old(upgrades).key_seq(), name) ==> final(upgrades).key_seq() == old(
                    upgrades,
                ).key_seq() && final(upgrades).value_seq().len() == n && forall|i: int|
                    0 <= i < n ==> if old(upgrades).key_seq()[i] == name {
                        is_effect_upgrade(#[trigger] final(upgrades).value_seq()[i], self, n)
                    } else {
                        final(upgrades).value_seq()[i] == old(upgrades).value_seq()[i]
                    }
                &&& !has_key(old(upgrades).key_seq(), name) ==> final(upgrades).key_seq() == old(
                    upgrades,
                ).key_seq().push(name) && final(upgrades).value_seq().len() == n + 1
                    && final(upgrades).value_seq().take(n as int) == old(upgrades).value_seq()
                    && is_effect_upgrade(final(upgrades).value_seq()[n as int], self, n)
            }),
    {
        let n = upgrades.len();
        let mut name = String::from_str("Effect Upgrade ");
        push_decimal(&mut name, n as u64);
        let mut effects: Vec<Effect> = Vec::new();
        effects.push(self);
        proof {
            assert(effects@ =~= seq![self]);
        }
        let upgrade = Upgrade {
            name,
            level: 0,
            stage: 1,
            cost: Formula::fixed(100),
            description: String::from_str("Auto-generated from effect by runner"),
            effect_type: EffectType::Additive,
            effects,
        };
        let ghost u = upgrade;
        upgrades.register(upgrade);
        proof {
            assert(is_effect_upgrade(u, self, n as nat));
            if !has_key(old(upgrades).key_seq(), u.name@) {
                assert(upgrades.value_seq().take(n as int) =~= old(upgrades).value_seq());
            }
        }
    }
}

} // verus!

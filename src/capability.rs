use vstd::prelude::*;

use crate::formula::Formula;

verus! {

/// How an upgrade's effects combine with the base yield.
#[derive(Clone, Copy, Debug, PartialEq, Eq, Structural)]
pub enum EffectType {
    Additive,
    Multiplicative,
}

/// The event on which an effect applies.
#[derive(Clone, Copy, Debug, PartialEq, Eq, Structural)]
pub enum EffectTrigger {
    Click,
}

/// What an effect does, as a function of the upgrade's level.
#[derive(Clone, Copy, Debug, PartialEq, Eq, Structural)]
pub enum EffectValue {
    Add(Formula),
    Multiply(Formula),
    Prestige,
}

/// One effect of an upgrade.
#[derive(Clone, Copy, Debug, PartialEq, Eq, Structural)]
pub struct Effect {
    pub trigger: EffectTrigger,
    pub value: EffectValue,
}

/// An upgrade definition: the one capability kind that hosts of this library
/// register.
pub struct Upgrade {
    pub name: String,
    pub level: u32,
    pub stage: u32,
    pub cost: Formula,
    pub description: String,
    pub effect_type: EffectType,
    pub effects: Vec<Effect>,
}

/// The closed union of capability kinds that a registry holds.
pub enum Registrable {
    Upgrade(Upgrade),
}

/// A capability kind that can be told apart inside the union `R` and read out of it.
pub trait FromRegistrable<R>: Sized {
    /// Whether a variant carries a payload of this kind.
    spec fn is_kind(registrable: R) -> bool;

    /// The payload of a variant of this kind.
    spec fn payload(registrable: R) -> Self;

    /// The variant that wraps a payload of this kind.
    spec fn wrap(item: Self) -> R;

    /// Wrapping then reading out gives the payload back.
    proof fn lemma_wrap_payload(item: Self)
        ensures
            Self::is_kind(Self::wrap(item)),
            Self::payload(Self::wrap(item)) == item,
    ;

    /// The payload of `registrable`, when it is of this kind.
    fn from_registrable(registrable: &R) -> (r: Option<&Self>)
        ensures
            r is Some <==> Self::is_kind(*registrable),
            r is Some ==> *r.unwrap() == Self::payload(*registrable),
    ;
}

/// A capability kind whose payload can be changed in place inside the union `R`.
pub trait FromRegistrableMut<R>: FromRegistrable<R> {
    /// A mutable reference to the payload of `registrable`, when it is of this kind.
    fn from_registrable_mut(registrable: &mut R) -> (r: Option<&mut Self>)
        ensures
            r is Some <==> Self::is_kind(*old(registrable)),
            r is Some ==> *r.unwrap() == Self::payload(*old(registrable)) && *final(registrable)
                == Self::wrap(*final(r.unwrap())),
            r is None ==> *final(registrable) == *old(registrable),
    ;
}

impl FromRegistrable<Registrable> for Upgrade {
    open spec fn is_kind(registrable: Registrable) -> bool {
        registrable is Upgrade
    }

    open spec fn payload(registrable: Registrable) -> Upgrade {
        match registrable {
            Registrable::Upgrade(upgrade) => upgrade,
        }
    }

    open spec fn wrap(item: Upgrade) -> Registrable {
        Registrable::Upgrade(item)
    }

    proof fn lemma_wrap_payload(item: Upgrade) {
    }

    fn from_registrable(registrable: &Registrable) -> (r: Option<&Upgrade>) {
        match registrable {
            Registrable::Upgrade(upgrade) => Some(upgrade),
        }
    }
}

impl FromRegistrableMut<Registrable> for Upgrade {
    fn from_registrable_mut(registrable: &mut Registrable) -> (r: Option<&mut Upgrade>) {
        match registrable {
            Registrable::Upgrade(upgrade) => Some(upgrade),
        }
    }
}

impl From<Upgrade> for Registrable {
    fn from(upgrade: Upgrade) -> (r: Registrable)
        ensures
            r == Registrable::Upgrade(upgrade),
    {
        Registrable::Upgrade(upgrade)
    }
}

impl vstd::std_specs::convert::FromSpecImpl<Upgrade> for Registrable {
    open spec fn obeys_from_spec() -> bool {
        true
    }

    open spec fn from_spec(upgrade: Upgrade) -> Registrable {
        Registrable::Upgrade(upgrade)
    }
}

impl TryFrom<Registrable> for Upgrade {
    type Error = &'static str;

    fn try_from(registrable: Registrable) -> (r: Result<Upgrade, &'static str>)
        ensures
            r == Ok::<Upgrade, &'static str>(<Upgrade as FromRegistrable<Registrable>>::payload(registrable)),
    {
        match registrable {
            Registrable::Upgrade(upgrade) => Ok(upgrade),
        }
    }
}

impl vstd::std_specs::convert::TryFromSpecImpl<Registrable> for Upgrade {
    open spec fn obeys_try_from_spec() -> bool {
        true
    }

    open spec fn try_from_spec(registrable: Registrable) -> Result<Upgrade, &'static str> {
        Ok(<Upgrade as FromRegistrable<Registrable>>::payload(registrable))
    }
}

} // verus!

use vstd::prelude::*;

use crate::capability::{Effect, EffectTrigger, EffectType, EffectValue, Upgrade};
use crate::formula::formula_at;

verus! {

/// The character of a decimal digit.
pub open spec fn digit_char(d: nat) -> char {
    if d == 0 {
        '0'
    } else if d == 1 {
        '1'
    } else if d == 2 {
        '2'
    } else if d == 3 {
        '3'
    } else if d == 4 {
        '4'
    } else if d == 5 {
        '5'
    } else if d == 6 {
        '6'
    } else if d == 7 {
        '7'
    } else if d == 8 {
        '8'
    } else {
        '9'
    }
}

/// The decimal digits of `n`, most significant first, with no leading zero.
pub open spec fn decimal(n: nat) -> Seq<char>
    decreases n,
{
    if n < 10 {
        seq![digit_char(n)]
    } else {
        decimal(n / 10).push(digit_char(n % 10))
    }
}

/// What std's `Debug` writes for a string: the string quoted, with escapes.
pub uninterp spec fn debug_text(s: Seq<char>) -> Seq<char>;

/// Relies on `<str as core::fmt::Debug>::fmt`: the quoted, escaped form of a string
/// depends on its characters alone.
#[verifier::external_body]
fn debug_quoted(s: &str) -> (r: String)
    ensures
        r@ == debug_text(s@),
{
    format!("{:?}", s)
}

fn digit_str(d: u32) -> (r: &'static str)
    requires
        d < 10,
    ensures
        r@ == seq![digit_char(d as nat)],
{
    proof {
        reveal_strlit("0");
        reveal_strlit("1");
        reveal_strlit("2");
        reveal_strlit("3");
        reveal_strlit("4");
        reveal_strlit("5");
        reveal_strlit("6");
        reveal_strlit("7");
        reveal_strlit("8");
        reveal_strlit("9");
    }
    if d == 0 {
        "0"
    } else if d == 1 {
        "1"
    } else if d == 2 {
        "2"
    } else if d == 3 {
        "3"
    } else if d == 4 {
        "4"
    } else if d == 5 {
        "5"
    } else if d == 6 {
        "6"
    } else if d == 7 {
        "7"
    } else if d == 8 {
        "8"
    } else {
        "9"
    }
}

/// Appends the decimal digits of `n` to `out`.
pub fn push_decimal(out: &mut String, n: u64)
    ensures
        final(out)@ == old(out)@ + decimal(n as nat),
    decreases n,
{
    if n >= 10 {
        push_decimal(out, n / 10);
    }
    out.append(digit_str((n % 10) as u32));
    proof {
        if n >= 10 {
            assert(old(out)@ + decimal(n as nat) =~= old(out)@ + decimal((n / 10) as nat) + seq![
                digit_char((n % 10) as nat),
            ]);
        } else {
            assert(decimal(n as nat) == seq![digit_char(n as nat)]);
        }
    }
}

/// The name of a trigger.
pub open spec fn trigger_text(t: EffectTrigger) -> Seq<char> {
    match t {
        EffectTrigger::Click => "Click"@,
    }
}

/// The name of an effect type.
pub open spec fn effect_type_text(t: EffectType) -> Seq<char> {
    match t {
        EffectType::Additive => "Additive"@,
        EffectType::Multiplicative => "Multiplicative"@,
    }
}

/// What an effect value amounts to at `level`.
pub open spec fn value_text(v: EffectValue, level: nat) -> Seq<char> {
    match v {
        EffectValue::Add(f) => "add: "@ + decimal(formula_at(f, level) as nat),
        EffectValue::Multiply(f) => "multiply: "@ + decimal(formula_at(f, level) as nat),
        EffectValue::Prestige => "prestige"@,
    }
}

/// The description of an effect at `level`: its trigger and, quoted, its value.
pub open spec fn effect_text(e: Effect, level: nat) -> Seq<char> {
    "trigger: "@ + trigger_text(e.trigger) + ", value: \""@ + value_text(e.value, level) + "\""@
}

/// The effects' descriptions at `level`, each in `Debug` form, separated by `", "`.
pub open spec fn effects_text(es: Seq<Effect>, level: nat) -> Seq<char>
    decreases es.len(),
{
    if es.len() == 0 {
        Seq::empty()
    } else if es.len() == 1 {
        debug_text(effect_text(es[0], level))
    } else {
        effects_text(es.drop_last(), level) + ", "@ + debug_text(effect_text(es.last(), level))
    }
}

/// The description of an upgrade, in the layout of a derived `Debug`, with its
/// cost at its current level and its effects described at that level.
pub open spec fn upgrade_text(u: Upgrade) -> Seq<char> {
    "Upgrade { name: "@ + debug_text(u.name@) + ", level: "@ + decimal(u.level as nat)
        + ", stage: "@ + decimal(u.stage as nat) + ", cost: "@ + decimal(
        formula_at(u.cost, u.level as nat) as nat,
    ) + ", effect_type: "@ + effect_type_text(u.effect_type) + ", effects: ["@ + effects_text(
        u.effects@,
        u.level as nat,
    ) + "] }"@
}

impl Effect {
    /// Describes the effect at `level`.
    pub fn to_string(&self, level: u32) -> (r: String)
        ensures
            r@ == effect_text(*self, level as nat),
    {
        let mut out = String::from_str("trigger: ");
        match self.trigger {
            EffectTrigger::Click => out.append("Click"),
        }
        out.append(", value: \"");
        match self.value {
            EffectValue::Add(f) => {
                out.append("add: ");
                push_decimal(&mut out, f.eval(level) as u64);
            },
            EffectValue::Multiply(f) => {
                out.append("multiply: ");
                push_decimal(&mut out, f.eval(level) as u64);
            },
            EffectValue::Prestige => out.append("prestige"),
        }
        out.append("\"");
        proof {
            assert(out@ =~= effect_text(*self, level as nat));
        }
        out
    }
}

impl Upgrade {
    /// Describes the upgrade: name, level, stage, cost at the current level, effect
    /// type and effects.
    pub fn to_debug_string(&self) -> (r: String)
        ensures
            r@ == upgrade_text(*self),
    {
        let mut out = String::from_str("Upgrade { name: ");
        let name = debug_quoted(self.name.as_str());
        out.append(name.as_str());
        out.append(", level: ");
        push_decimal(&mut out, self.level as u64);
        out.append(", stage: ");
        push_decimal(&mut out, self.stage as u64);
        out.append(", cost: ");
        push_decimal(&mut out, self.cost.eval(self.level) as u64);
        out.append(", effect_type: ");
        match self.effect_type {
            EffectType::Additive => out.append("Additive"),
            EffectType::Multiplicative => out.append("Multiplicative"),
        }
        out.append(", effects: [");
        let ghost head = out@;
        let mut i: usize = 0;
        while i < self.effects.len()
            invariant
                i <= self.effects@.len(),
                out@ == head + effects_text(self.effects@.take(i as int), self.level as nat),
            decreases self.effects@.len() - i,
        {
            proof {
                assert(self.effects@.take(i + 1).drop_last() =~= self.effects@.take(i as int));
            }
            if i > 0 {
                out.append(", ");
            }
            let text = self.effects[i].to_string(self.level);
            let quoted = debug_quoted(text.as_str());
            out.append(quoted.as_str());
            i = i + 1;
            proof {
                assert(out@ =~= head + effects_text(self.effects@.take(i as int), self.level as nat));
            }
        }
        out.append("] }");
        proof {
            assert(self.effects@.take(i as int) =~= self.effects@);
            assert(out@ =~= upgrade_text(*self));
        }
        out
    }
}

} // verus!

use vstd::prelude::*;

verus! {

/// A level-dependent amount: `quadratic * level^2 + linear * level + constant`.
///
/// Costs and effect strengths of upgrades are given as such formulas, so that a
/// registered capability is plain data that can be inspected and compared.
#[derive(Clone, Copy, Debug, PartialEq, Eq, Structural)]
pub struct Formula {
    pub quadratic: u32,
    pub linear: u32,
    pub constant: u32,
}

/// The exact value of the polynomial at a level, without any bound.
pub open spec fn poly_value(f: Formula, level: nat) -> int {
    f.quadratic * level * level + f.linear * level + f.constant
}

/// The value of a formula as a `u32`: the exact value, or `u32::MAX` where the
/// exact value does not fit.
pub open spec fn formula_at(f: Formula, level: nat) -> u32 {
    if poly_value(f, level) <= u32::MAX {
        poly_value(f, level) as u32
    } else {
        u32::MAX
    }
}

impl Formula {
    /// The formula that is `value` at every level.
    pub open spec fn fixed_spec(value: u32) -> Formula {
        Formula { quadratic: 0, linear: 0, constant: value }
    }

    /// The formula `linear * level + constant`.
    pub open spec fn linear_spec(linear: u32, constant: u32) -> Formula {
        Formula { quadratic: 0, linear: linear, constant: constant }
    }

    /// The formula `quadratic * level^2 + linear * level + constant`.
    pub open spec fn quadratic_spec(quadratic: u32, linear: u32, constant: u32) -> Formula {
        Formula { quadratic: quadratic, linear: linear, constant: constant }
    }

    /// The formula that is `value` at every level.
    pub fn fixed(value: u32) -> (r: Formula)
        ensures
            r == Formula::fixed_spec(value),
    {
        Formula { quadratic: 0, linear: 0, constant: value }
    }

    /// The formula `linear * level + constant`.
    pub fn linear(linear: u32, constant: u32) -> (r: Formula)
        ensures
            r == Formula::linear_spec(linear, constant),
    {
        Formula { quadratic: 0, linear, constant }
    }

    /// The formula `quadratic * level^2 + linear * level + constant`.
    pub fn quadratic(quadratic: u32, linear: u32, constant: u32) -> (r: Formula)
        ensures
            r == Formula::quadratic_spec(quadratic, linear, constant),
    {
        Formula { quadratic, linear, constant }
    }

    /// Evaluates the formula at `level`, saturating at `u32::MAX`.
    pub fn eval(&self, level: u32) -> (r: u32)
        ensures
            r == formula_at(*self, level as nat),
    {
        let l: u128 = level as u128;
        let q: u128 = self.quadratic as u128;
        let a: u128 = self.linear as u128;
        let c: u128 = self.constant as u128;
        proof {
            assert(l * l <= 0xffff_ffff_u128 * 0xffff_ffff_u128) by (nonlinear_arith)
                requires
                    l <= 0xffff_ffff_u128,
            ;
            assert(q * (l * l) <= 0xffff_ffff_u128 * (0xffff_ffff_u128 * 0xffff_ffff_u128))
                by (nonlinear_arith)
                requires
                    q <= 0xffff_ffff_u128,
                    l * l <= 0xffff_ffff_u128 * 0xffff_ffff_u128,
            ;
            assert(a * l <= 0xffff_ffff_u128 * 0xffff_ffff_u128) by (nonlinear_arith)
                requires
                    a <= 0xffff_ffff_u128,
                    l <= 0xffff_ffff_u128,
            ;
            assert(q * l * l == q * (l * l)) by (nonlinear_arith);
        }
        let total: u128 = q * (l * l) + a * l + c;
        if total <= u32::MAX as u128 {
            total as u32
        } else {
            u32::MAX
        }
    }
}

} // verus!

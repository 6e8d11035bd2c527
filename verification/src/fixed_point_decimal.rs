use vstd::prelude::*;

verus! {

/// A signed-magnitude fixed-point decimal.
///
/// `val` is the nonnegative magnitude, held at the library's decimal scale;
/// `neg` is the sign bit: the pair stands for `(-1)^neg * val` scaled units.
/// The canonical form keeps `neg == false` whenever `val == 0`; every
/// operation below returns a canonical result.  Magnitudes saturate at
/// `u128::MAX` on overflow; callers keep coordinates small enough that
/// saturation never fires.
#[derive(Clone, Copy, PartialEq, Eq, Structural, Debug)]
pub struct Dec {
    pub val: u128,
    pub neg: bool,
}

impl Dec {
    /// The signed integer this decimal stands for, in scaled units.
    pub open spec fn value(self) -> int {
        if self.neg {
            -(self.val as int)
        } else {
            self.val as int
        }
    }

    /// Canonicalisation invariant: a zero magnitude carries sign `false`.
    pub open spec fn wf(self) -> bool {
        self.val == 0 ==> !self.neg
    }

    pub open spec fn spec_zero() -> Dec {
        Dec { val: 0, neg: false }
    }

    /// Attach a sign to a magnitude, canonicalising the zero.
    pub open spec fn canon(val: u128, neg: bool) -> Dec {
        Dec { val, neg: if val == 0 { false } else { neg } }
    }

    /// Signed-magnitude addition with saturating magnitudes.
    pub open spec fn spec_add(a: Dec, b: Dec) -> Dec {
        if a.neg == b.neg {
            if a.val + b.val <= u128::MAX {
                Dec::canon((a.val + b.val) as u128, a.neg)
            } else {
                Dec::canon(u128::MAX, a.neg)
            }
        } else if a.val >= b.val {
            Dec::canon((a.val - b.val) as u128, a.neg)
        } else {
            Dec::canon((b.val - a.val) as u128, b.neg)
        }
    }

    /// Negation: flip the sign unless the magnitude is zero.
    pub open spec fn spec_neg(a: Dec) -> Dec {
        Dec::canon(a.val, !a.neg)
    }

    /// Subtraction is addition of the negated operand.
    pub open spec fn spec_sub(a: Dec, b: Dec) -> Dec {
        Dec::spec_add(a, Dec::spec_neg(b))
    }

    /// Magnitude product (saturating) with XOR of the signs.  The result is
    /// left at doubled precision; the predicates that consume it only look at
    /// the sign.
    pub open spec fn spec_mul(a: Dec, b: Dec) -> Dec {
        if a.val * b.val <= u128::MAX {
            Dec::canon((a.val * b.val) as u128, a.neg != b.neg)
        } else {
            Dec::canon(u128::MAX, a.neg != b.neg)
        }
    }

    pub fn zero() -> (r: Dec)
        ensures
            r == Dec::spec_zero(),
    {
        Dec { val: 0, neg: false }
    }

    pub fn negate(self) -> (r: Dec)
        ensures
            r == Dec::spec_neg(self),
    {
        if self.val == 0 {
            Dec { val: self.val, neg: false }
        } else {
            Dec { val: self.val, neg: !self.neg }
        }
    }

    pub fn add(self, rhs: Dec) -> (r: Dec)
        ensures
            r == Dec::spec_add(self, rhs),
    {
        let (res_neg, res_val): (bool, u128) = if self.neg == rhs.neg {
            if self.val <= u128::MAX - rhs.val {
                (self.neg, self.val + rhs.val)
            } else {
                (self.neg, u128::MAX)
            }
        } else if self.val >= rhs.val {
            (self.neg, self.val - rhs.val)
        } else {
            (rhs.neg, rhs.val - self.val)
        };
        let res_neg = if res_val == 0 { false } else { res_neg };
        Dec { val: res_val, neg: res_neg }
    }

    pub fn sub(self, rhs: Dec) -> (r: Dec)
        ensures
            r == Dec::spec_sub(self, rhs),
    {
        self.add(rhs.negate())
    }

    pub fn mul_unscaled(self, rhs: Dec) -> (r: Dec)
        ensures
            r == Dec::spec_mul(self, rhs),
    {
        let res_val: u128 = if rhs.val == 0 || self.val <= u128::MAX / rhs.val {
            proof {
                lemma_mul_no_overflow(self.val, rhs.val);
            }
            self.val * rhs.val
        } else {
            proof {
                lemma_mul_overflow(self.val, rhs.val);
            }
            u128::MAX
        };
        let res_neg = if res_val == 0 { false } else { self.neg != rhs.neg };
        Dec { val: res_val, neg: res_neg }
    }
}

/// Every arithmetic result is canonical: a zero magnitude carries sign `false`.
pub proof fn lemma_ops_canonical(a: Dec, b: Dec)
    ensures
        Dec::spec_add(a, b).wf(),
        Dec::spec_sub(a, b).wf(),
        Dec::spec_mul(a, b).wf(),
        Dec::spec_neg(a).wf(),
{
}

/// When the magnitude sum stays in range, addition computes the signed sum of
/// the represented values.
pub proof fn lemma_add_exact(a: Dec, b: Dec)
    requires
        a.neg == b.neg ==> a.val + b.val <= u128::MAX,
    ensures
        Dec::spec_add(a, b).value() == a.value() + b.value(),
{
}

/// When the magnitude product stays in range, `mul_unscaled` computes the
/// signed product of the represented values (at doubled precision).
pub proof fn lemma_mul_exact(a: Dec, b: Dec)
    requires
        a.val * b.val <= u128::MAX,
    ensures
        Dec::spec_mul(a, b).value() == a.value() * b.value(),
{
    assert(Dec::spec_mul(a, b).value() == a.value() * b.value()) by (nonlinear_arith)
        requires
            a.val * b.val <= u128::MAX,
            Dec::spec_mul(a, b) == Dec::canon((a.val * b.val) as u128, a.neg != b.neg),
    ;
}

/// Adding a value to its own negation gives the canonical zero.
pub proof fn lemma_add_neg_cancels(a: Dec)
    ensures
        Dec::spec_add(a, Dec::spec_neg(a)) == Dec::spec_zero(),
{
}

/// Subtraction is, definitionally, addition of the negated operand.
pub proof fn lemma_sub_is_add_neg(a: Dec, b: Dec)
    ensures
        Dec::spec_sub(a, b) == Dec::spec_add(a, Dec::spec_neg(b)),
{
}

proof fn lemma_mul_no_overflow(x: u128, y: u128)
    requires
        y == 0 || x <= u128::MAX / y,
    ensures
        x * y <= u128::MAX,
{
    if y != 0 {
        assert(x * y <= u128::MAX) by (nonlinear_arith)
            requires
                y > 0,
                x <= u128::MAX / y,
                u128::MAX / y == u128::MAX as int / y as int,
        ;
    }
}

proof fn lemma_mul_overflow(x: u128, y: u128)
    requires
        y != 0,
        x > u128::MAX / y,
    ensures
        x * y > u128::MAX,
{
    assert(x * y > u128::MAX) by (nonlinear_arith)
        requires
            y > 0,
            x > u128::MAX / y,
            u128::MAX / y == u128::MAX as int / y as int,
    ;
}

} // verus!

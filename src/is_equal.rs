use crate::failure::VerifyFailure;
use crate::field::{lemma_mod_zero_in_window, modulus, Fe};
use crate::is_zero::{
    honest_inverse, indicator, is_zero, is_zero_constraint, is_zero_gate, lemma_is_zero_complete,
    IsZeroChip, IsZeroConfig,
};
use vstd::prelude::*;

verus! {

/// The constraint of the zero test on `a - b`.
pub const IS_ZERO_GATE: usize = 0;

/// The constraint that forces `a - b` to vanish.
pub const IS_EQUAL_GATE: usize = 1;

/// `a - b`, taken in the field.
pub open spec fn difference(a: int, b: int) -> int {
    (a - b) % modulus()
}

/// Both constraints of the equality check vanish on `a`, `b` and the inverse witness `inv`: the zero
/// test on `a - b`, and `a - b` itself.
pub open spec fn is_equal_holds(a: int, b: int, inv: int) -> bool {
    is_zero_gate(difference(a, b), inv) == 0 && difference(a, b) == 0
}

/// The layout of the equality check: the columns of `a` and `b`, and the zero test on `a - b`.
#[derive(Clone, Copy, Debug, PartialEq, Eq)]
pub struct IsEqualConfig {
    pub a: usize,
    pub b: usize,
    pub a_equals_b: IsZeroConfig,
}

/// One assigned row of the equality check.
#[derive(Clone, Copy, Debug, PartialEq, Eq)]
pub struct IsEqualRow {
    pub a: Fe,
    pub b: Fe,
    pub value_inv: Fe,
}

/// The equality check. It enforces `a == b` outright, through a constraint on `a - b`, beside the
/// zero test on `a - b`; the zero test's indicator, `1` exactly when `a == b`, is offered by
/// `indicator_of` for callers who want the answer as a value rather than as a constraint.
pub struct IsEqualChip {
    config: IsEqualConfig,
}

impl IsEqualChip {
    /// The layout this chip assigns into.
    pub closed spec fn layout(&self) -> IsEqualConfig {
        self.config
    }

    /// A chip for the given layout.
    pub fn construct(config: IsEqualConfig) -> (r: IsEqualChip)
        ensures
            r.layout() == config,
    {
        IsEqualChip { config }
    }

    /// The layout: `a` in column 0, `b` in column 1, the inverse witness in column 2.
    pub fn configure() -> (r: IsEqualConfig)
        ensures
            r.a == 0,
            r.b == 1,
            r.a_equals_b.value_inv == 2,
    {
        IsEqualConfig { a: 0, b: 1, a_equals_b: IsZeroChip::configure(2) }
    }

    /// Assigns `a`, `b` and the inverse witness of `a - b`.
    pub fn assign(&self, a: Fe, b: Fe) -> (r: IsEqualRow)
        ensures
            r.a == a,
            r.b == b,
            honest_inverse(difference(a.value(), b.value()), r.value_inv.value()),
    {
        let is_zero_chip = IsZeroChip::construct(self.config.a_equals_b);
        let d = a.sub(&b);
        let value_inv = is_zero_chip.assign(&d);
        IsEqualRow { a, b, value_inv }
    }

    /// Checks both constraints on a row: the zero test on `a - b` first, then `a - b == 0`.
    pub fn verify(&self, row: &IsEqualRow) -> (r: Result<(), VerifyFailure>)
        ensures
            r.is_ok() == is_equal_holds(row.a.value(), row.b.value(), row.value_inv.value()),
            r matches Err(e) ==> (e matches VerifyFailure::ConstraintNotSatisfied {
                gate,
                constraint,
                region,
                offset,
                value,
            } && gate == (if is_zero_gate(
                difference(row.a.value(), row.b.value()),
                row.value_inv.value(),
            ) != 0 {
                IS_ZERO_GATE
            } else {
                IS_EQUAL_GATE
            }) && constraint == 0 && region == 0 && offset == 0 && value.value() == difference(
                row.a.value(),
                row.b.value(),
            )),
    {
        let d = row.a.sub(&row.b);
        let gate = is_zero_constraint(&d, &row.value_inv);
        if !gate.is_zero() {
            return Err(
                VerifyFailure::ConstraintNotSatisfied {
                    gate: IS_ZERO_GATE,
                    constraint: 0,
                    region: 0,
                    offset: 0,
                    value: d,
                },
            );
        }
        if !d.is_zero() {
            return Err(
                VerifyFailure::ConstraintNotSatisfied {
                    gate: IS_EQUAL_GATE,
                    constraint: 0,
                    region: 0,
                    offset: 0,
                    value: d,
                },
            );
        }
        Ok(())
    }
}

/// The zero-test indicator of `a - b`: `1` when `a == b`, `0` otherwise.
pub fn indicator_of(a: &Fe, b: &Fe) -> (r: Fe)
    ensures
        r.value() == (if a.value() == b.value() {
            1int
        } else {
            0int
        }),
{
    proof {
        a.lemma_range();
        b.lemma_range();
        lemma_mod_zero_in_window(a.value() - b.value(), modulus());
    }
    let d = a.sub(b);
    let (ind, _value_inv) = is_zero(&d);
    ind
}

/// With the honest inverse witness both constraints vanish exactly when `a == b`; with any witness,
/// they vanish only when `a == b`.
pub proof fn lemma_is_equal_exact(a: Fe, b: Fe, value_inv: Fe)
    ensures
        is_equal_holds(a.value(), b.value(), value_inv.value()) ==> a.value() == b.value(),
        honest_inverse(difference(a.value(), b.value()), value_inv.value()) ==> (is_equal_holds(
            a.value(),
            b.value(),
            value_inv.value(),
        ) == (a.value() == b.value())),
{
    a.lemma_range();
    b.lemma_range();
    lemma_mod_zero_in_window(a.value() - b.value(), modulus());
    if a.value() == b.value() {
        vstd::arithmetic::div_mod::lemma_small_mod(0, modulus() as nat);
        assert(0 * indicator(0, value_inv.value()) == 0);
    }
}

/// Two values to be proved equal.
pub struct IsEqualCircuit {
    pub a: Fe,
    pub b: Fe,
}

impl IsEqualCircuit {
    /// Assigns the row and checks it: accepted exactly when `a == b`; otherwise the constraint on
    /// `a - b` is the one that fails.
    pub fn synthesize(&self) -> (r: Result<(), VerifyFailure>)
        ensures
            r.is_ok() == (self.a.value() == self.b.value()),
            r matches Err(e) ==> (e matches VerifyFailure::ConstraintNotSatisfied {
                gate,
                region,
                offset,
                ..
            } && gate == IS_EQUAL_GATE && region == 0 && offset == 0),
    {
        let chip = IsEqualChip::construct(IsEqualChip::configure());
        let row = chip.assign(self.a, self.b);
        proof {
            lemma_is_equal_exact(self.a, self.b, row.value_inv);
            lemma_is_zero_complete(difference(self.a.value(), self.b.value()), row.value_inv.value());
        }
        chip.verify(&row)
    }
}

} // verus!

use crate::field::{modulus, Fe};
use vstd::prelude::*;

verus! {

/// The derived indicator `1 - value * value_inv`, taken in the field.
pub open spec fn indicator(v: int, inv: int) -> int {
    (1 - (v * inv) % modulus()) % modulus()
}

/// The zero-test constraint `value * (1 - value * value_inv)`, taken in the field; it must vanish.
pub open spec fn is_zero_gate(v: int, inv: int) -> int {
    (v * indicator(v, inv)) % modulus()
}

/// The witness that an honest prover assigns: the inverse of a nonzero value, zero for zero.
pub open spec fn honest_inverse(v: int, inv: int) -> bool {
    if v == 0 {
        inv == 0
    } else {
        (v * inv) % modulus() == 1
    }
}

/// The layout of the zero test: the advice column that holds the inverse witness.
#[derive(Clone, Copy, Debug, PartialEq, Eq)]
pub struct IsZeroConfig {
    pub value_inv: usize,
}

/// Witnesses and checks the zero test laid out by an `IsZeroConfig`.
pub struct IsZeroChip {
    config: IsZeroConfig,
}

impl IsZeroChip {
    /// The layout this chip assigns into.
    pub closed spec fn layout(&self) -> IsZeroConfig {
        self.config
    }

    /// A chip for the given layout.
    pub fn construct(config: IsZeroConfig) -> (r: IsZeroChip)
        ensures
            r.layout() == config,
    {
        IsZeroChip { config }
    }

    /// The layout with the inverse witness in column `value_inv`.
    pub fn configure(value_inv: usize) -> (r: IsZeroConfig)
        ensures
            r.value_inv == value_inv,
    {
        IsZeroConfig { value_inv }
    }

    /// The layout this chip assigns into.
    pub fn config(&self) -> (r: IsZeroConfig)
        ensures
            r == self.layout(),
    {
        self.config
    }

    /// The inverse witness for `value`: its inverse, or zero when it has none.
    pub fn assign(&self, value: &Fe) -> (r: Fe)
        ensures
            honest_inverse(value.value(), r.value()),
    {
        match value.invert() {
            Some(x) => x,
            None => Fe::zero(),
        }
    }
}

/// The indicator `1 - value * value_inv`.
pub fn is_zero_expr(value: &Fe, value_inv: &Fe) -> (r: Fe)
    ensures
        r.value() == indicator(value.value(), value_inv.value()),
{
    let one = Fe::one();
    one.sub(&value.mul(value_inv))
}

/// The zero-test constraint `value * (1 - value * value_inv)`; it vanishes exactly when `value` or the
/// indicator does.
pub fn is_zero_constraint(value: &Fe, value_inv: &Fe) -> (r: Fe)
    ensures
        r.value() == is_zero_gate(value.value(), value_inv.value()),
        (r.value() == 0) == (value.value() == 0 || indicator(value.value(), value_inv.value())
            == 0),
{
    let ind = is_zero_expr(value, value_inv);
    proof {
        assert(0 * ind.value() == 0);
        assert(value.value() * 0 == 0);
        vstd::arithmetic::div_mod::lemma_small_mod(0, modulus() as nat);
    }
    value.mul(&ind)
}

/// The zero test of `value`: the indicator, `1` for zero and `0` otherwise, and the inverse
/// witness it was derived from.
pub fn is_zero(value: &Fe) -> (r: (Fe, Fe))
    ensures
        r.0.value() == (if value.value() == 0 {
            1int
        } else {
            0int
        }),
        honest_inverse(value.value(), r.1.value()),
        r.0.value() == indicator(value.value(), r.1.value()),
{
    let chip = IsZeroChip::construct(IsZeroChip::configure(0));
    let value_inv = chip.assign(value);
    let ind = is_zero_expr(value, &value_inv);
    proof {
        lemma_is_zero_complete(value.value(), value_inv.value());
    }
    (ind, value_inv)
}

/// With the honest inverse witness the indicator is `1` for zero and `0` for any other value,
/// and the constraint vanishes.
pub proof fn lemma_is_zero_complete(v: int, inv: int)
    requires
        honest_inverse(v, inv),
    ensures
        indicator(v, inv) == (if v == 0 {
            1int
        } else {
            0int
        }),
        is_zero_gate(v, inv) == 0,
{
    if v == 0 {
        assert(0 * inv == 0);
        vstd::arithmetic::div_mod::lemma_small_mod(0, modulus() as nat);
        vstd::arithmetic::div_mod::lemma_small_mod(1, modulus() as nat);
        assert(0 * indicator(v, inv) == 0);
    } else {
        vstd::arithmetic::div_mod::lemma_small_mod(0, modulus() as nat);
        assert(v * 0 == 0);
    }
}

/// Whatever inverse witness is assigned: the indicator of zero is `1`, and where the constraint
/// vanishes, an indicator of `1` means the value is zero.
pub proof fn lemma_is_zero_sound(value: Fe, value_inv: Fe)
    ensures
        value.value() == 0 ==> indicator(value.value(), value_inv.value()) == 1,
        is_zero_gate(value.value(), value_inv.value()) == 0 && indicator(
            value.value(),
            value_inv.value(),
        ) == 1 ==> value.value() == 0,
{
    let v = value.value();
    let inv = value_inv.value();
    value.lemma_range();
    if v == 0 {
        assert(0 * inv == 0);
        vstd::arithmetic::div_mod::lemma_small_mod(0, modulus() as nat);
        vstd::arithmetic::div_mod::lemma_small_mod(1, modulus() as nat);
    }
    if indicator(v, inv) == 1 {
        assert(v * 1 == v);
        vstd::arithmetic::div_mod::lemma_small_mod(v as nat, modulus() as nat);
    }
}

} // verus!

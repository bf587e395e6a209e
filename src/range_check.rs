use crate::failure::VerifyFailure;
use crate::field::{lemma_mod_zero_in_window, modulus, Fe};
use crate::table::RangeTableConfig;
use vstd::arithmetic::power2::pow2;
use vstd::prelude::*;

verus! {

/// The constraint that holds the range-check polynomial.
pub const RANGE_CHECK_GATE: usize = 0;

/// The product `(0 - v) * (1 - v) * ... * (n - 1 - v)`, taken in the field.
pub open spec fn range_poly(v: int, n: nat) -> int
    decreases n,
{
    if n == 0 {
        1
    } else {
        (range_poly(v, (n - 1) as nat) * ((n - 1 - v) % modulus())) % modulus()
    }
}

/// Evaluates the range-check polynomial `prod_{j < range} (j - value)`, which vanishes exactly
/// when `value` is one of `0, 1, ..., range - 1`.
pub fn range_check_expr(value: &Fe, range: u64) -> (r: Fe)
    requires
        range >= 1,
    ensures
        r.value() == range_poly(value.value(), range as nat),
        (r.value() == 0) == (value.value() < range),
{
    proof {
        value.lemma_range();
    }
    let mut acc = Fe::one();
    let mut j: u64 = 0;
    while j < range
        invariant
            0 <= j <= range,
            0 <= value.value() < modulus(),
            acc.value() == range_poly(value.value(), j as nat),
            (acc.value() == 0) == (value.value() < j),
        decreases range - j,
    {
        let factor = Fe::from_u64(j).sub(value);
        proof {
            lemma_mod_zero_in_window(j - value.value(), modulus());
            acc.lemma_range();
            if acc.value() == 0 {
                assert(0 * factor.value() == 0);
            }
            if factor.value() == 0 {
                assert(acc.value() * 0 == 0);
            }
        }
        acc = acc.mul(&factor);
        j = j + 1;
    }
    acc
}

/// A check that a value lies in `0 .. range` by the polynomial constraint, and one that a value lies
/// in `0 .. 2^K` by a lookup in a table of width `K`.
pub struct RangeCheckConfig {
    range: u64,
    lookup_table: RangeTableConfig,
}

impl RangeCheckConfig {
    /// The bound of the polynomial check.
    pub closed spec fn range_bound(&self) -> nat {
        self.range as nat
    }

    /// The table of the lookup check.
    pub closed spec fn table(&self) -> RangeTableConfig {
        self.lookup_table
    }

    /// Well formed: a positive bound and a complete table.
    pub open spec fn wf(&self) -> bool {
        self.range_bound() >= 1 && self.table().wf()
    }

    /// Sets up both checks: values below `range` by the constraint, below `2^num_bits` by lookup.
    pub fn configure(range: u64, num_bits: usize) -> (r: RangeCheckConfig)
        requires
            range >= 1,
            1 <= num_bits <= 63,
        ensures
            r.wf(),
            r.range_bound() == range,
            r.table().bits() == num_bits,
    {
        RangeCheckConfig { range, lookup_table: RangeTableConfig::load(num_bits) }
    }

    /// The lookup table.
    pub fn lookup_table(&self) -> (r: &RangeTableConfig)
        ensures
            *r == self.table(),
    {
        &self.lookup_table
    }

    /// Checks `value` with the polynomial constraint, placed at offset 0 of region `region`.
    pub fn assign_simple(&self, region: usize, value: Fe) -> (r: Result<(), VerifyFailure>)
        requires
            self.wf(),
        ensures
            r.is_ok() == (value.value() < self.range_bound()),
            r matches Err(e) ==> e == (VerifyFailure::ConstraintNotSatisfied {
                gate: RANGE_CHECK_GATE,
                constraint: 0,
                region,
                offset: 0,
                value,
            }),
    {
        let poly = range_check_expr(&value, self.range);
        if poly.is_zero() {
            Ok(())
        } else {
            Err(
                VerifyFailure::ConstraintNotSatisfied {
                    gate: RANGE_CHECK_GATE,
                    constraint: 0,
                    region,
                    offset: 0,
                    value,
                },
            )
        }
    }

    /// Checks `value` by a lookup in the table, placed at offset 0 of region `region`.
    pub fn assign_lookup(&self, region: usize, value: Fe) -> (r: Result<(), VerifyFailure>)
        requires
            self.wf(),
        ensures
            r.is_ok() == (value.value() < pow2(self.table().bits())),
            r matches Err(e) ==> e == (VerifyFailure::Lookup {
                lookup_index: 0,
                region,
                offset: 0,
            }),
    {
        if self.lookup_table.contains(&value) {
            Ok(())
        } else {
            Err(VerifyFailure::Lookup { lookup_index: 0, region, offset: 0 })
        }
    }
}

/// The region of the polynomial check in `RangeCheckCircuit`; region 0 loads the table.
pub const SIMPLE_REGION: usize = 1;

/// The region of the lookup check in `RangeCheckCircuit`.
pub const LOOKUP_REGION: usize = 2;

/// The failures that `RangeCheckCircuit` reports for `value` and `lookup_value`, in order.
pub open spec fn range_check_failures(
    value: Fe,
    lookup_value: Fe,
    range: nat,
    num_bits: nat,
) -> Seq<VerifyFailure> {
    let simple = if value.value() < range {
        Seq::<VerifyFailure>::empty()
    } else {
        seq![
            VerifyFailure::ConstraintNotSatisfied {
                gate: RANGE_CHECK_GATE,
                constraint: 0,
                region: SIMPLE_REGION,
                offset: 0,
                value,
            },
        ]
    };
    let lookup = if lookup_value.value() < pow2(num_bits) {
        Seq::<VerifyFailure>::empty()
    } else {
        seq![VerifyFailure::Lookup { lookup_index: 0, region: LOOKUP_REGION, offset: 0 }]
    };
    simple + lookup
}

/// One value checked by the polynomial constraint and one by the lookup.
pub struct RangeCheckCircuit {
    pub value: Fe,
    pub lookup_value: Fe,
}

impl RangeCheckCircuit {
    /// Runs both checks and reports every failure, the polynomial's before the lookup's.
    pub fn synthesize(&self, config: &RangeCheckConfig) -> (r: Result<(), Vec<VerifyFailure>>)
        requires
            config.wf(),
        ensures
            r.is_ok() == (self.value.value() < config.range_bound() && self.lookup_value.value()
                < pow2(config.table().bits())),
            r matches Err(fs) ==> fs@ == range_check_failures(
                self.value,
                self.lookup_value,
                config.range_bound(),
                config.table().bits(),
            ),
    {
        let mut failures: Vec<VerifyFailure> = Vec::new();
        match config.assign_simple(SIMPLE_REGION, self.value) {
            Ok(()) => {},
            Err(e) => failures.push(e),
        }
        match config.assign_lookup(LOOKUP_REGION, self.lookup_value) {
            Ok(()) => {},
            Err(e) => failures.push(e),
        }
        proof {
            assert(failures@ =~= range_check_failures(
                self.value,
                self.lookup_value,
                config.range_bound(),
                config.table().bits(),
            ));
        }
        if failures.len() == 0 {
            Ok(())
        } else {
            Err(failures)
        }
    }
}

/// A single value checked by the polynomial constraint alone, in region 0.
pub struct SimpleRangeCheckCircuit {
    pub value: Fe,
}

impl SimpleRangeCheckCircuit {
    /// Runs the polynomial check for the bound `range`; accepted exactly when the value is
    /// below it.
    pub fn synthesize(&self, range: u64) -> (r: Result<(), VerifyFailure>)
        requires
            range >= 1,
        ensures
            r.is_ok() == (self.value.value() < range),
            r matches Err(e) ==> e == (VerifyFailure::ConstraintNotSatisfied {
                gate: RANGE_CHECK_GATE,
                constraint: 0,
                region: 0,
                offset: 0,
                value: self.value,
            }),
    {
        let poly = range_check_expr(&self.value, range);
        if poly.is_zero() {
            Ok(())
        } else {
            Err(
                VerifyFailure::ConstraintNotSatisfied {
                    gate: RANGE_CHECK_GATE,
                    constraint: 0,
                    region: 0,
                    offset: 0,
                    value: self.value,
                },
            )
        }
    }
}

} // verus!

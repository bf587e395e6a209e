use crate::failure::VerifyFailure;
use crate::field::{modulus, Fe};
use vstd::prelude::*;

verus! {

/// Term `n` of the sequence that starts `a, b` and continues by sums, taken in the field.
pub open spec fn fib_term(a: int, b: int, n: nat) -> int
    decreases n,
{
    if n == 0 {
        a
    } else if n == 1 {
        b
    } else {
        (fib_term(a, b, (n - 2) as nat) + fib_term(a, b, (n - 1) as nat)) % modulus()
    }
}

/// The number of rows that `FiboCircuit` fills.
pub const FIBO_ROWS: usize = 10;

/// The layout of the sequence: its advice column, the selector of the addition constraint, and
/// the public-input column.
#[derive(Clone, Copy, Debug, PartialEq, Eq)]
pub struct FiboConfig {
    pub advice: usize,
    pub selector: usize,
    pub instance: usize,
}

/// Fills and checks a sequence in which each term is the sum of the two before it.
pub struct FiboChip {
    config: FiboConfig,
}

impl FiboChip {
    /// The layout this chip assigns into.
    pub closed spec fn layout(&self) -> FiboConfig {
        self.config
    }

    /// A chip for the given layout.
    pub fn construct(config: FiboConfig) -> (r: FiboChip)
        ensures
            r.layout() == config,
    {
        FiboChip { config }
    }

    /// The layout over the given advice and public-input columns, with selector 0.
    pub fn configure(advice: usize, instance: usize) -> (r: FiboConfig)
        ensures
            r.advice == advice,
            r.instance == instance,
            r.selector == 0,
    {
        FiboConfig { advice, selector: 0, instance }
    }

    /// The advice column: the first two public inputs, then `rows - 2` more terms, each the
    /// sum of the two before it.
    pub fn assign(&self, instance: &Vec<Fe>, rows: usize) -> (r: Vec<Fe>)
        requires
            instance@.len() >= 2,
            rows >= 2,
        ensures
            r@.len() == rows,
            forall|i: int|
                0 <= i < rows ==> #[trigger] r@[i].value() == fib_term(
                    instance@[0].value(),
                    instance@[1].value(),
                    i as nat,
                ),
    {
        let ghost a = instance@[0].value();
        let ghost b = instance@[1].value();
        let mut column: Vec<Fe> = Vec::new();
        column.push(instance[0]);
        column.push(instance[1]);
        let mut row: usize = 2;
        while row < rows
            invariant
                2 <= row <= rows,
                column@.len() == row,
                forall|i: int| 0 <= i < row ==> #[trigger] column@[i].value() == fib_term(a, b, i as nat),
            decreases rows - row,
        {
            let c = column[row - 2].add(&column[row - 1]);
            column.push(c);
            proof {
                assert(column@[row as int].value() == fib_term(a, b, row as nat));
            }
            row = row + 1;
        }
        column
    }

    /// Checks the addition constraint on every row where it is enabled: each term from the
    /// third on must be the sum of the two before it. Reports the first row that fails.
    pub fn check_add(&self, column: &Vec<Fe>) -> (r: Result<(), VerifyFailure>)
        ensures
            r.is_ok() == (forall|i: int|
                2 <= i < column@.len() ==> #[trigger] column@[i].value() == (column@[i - 2].value()
                    + column@[i - 1].value()) % modulus()),
            r matches Err(e) ==> (e matches VerifyFailure::ConstraintNotSatisfied {
                gate,
                region,
                offset,
                ..
            } && gate == 0 && region == 0 && offset + 2 < column@.len() && column@[offset + 2].value()
                != (column@[offset as int].value() + column@[offset + 1].value()) % modulus()),
    {
        let mut row: usize = 2;
        while row < column.len()
            invariant
                2 <= row,
                row <= column@.len() || column@.len() < 2,
                forall|i: int|
                    2 <= i < row && i < column@.len() ==> #[trigger] column@[i].value() == (
                    column@[i - 2].value() + column@[i - 1].value()) % modulus(),
            decreases column@.len() - row,
        {
            let sum = column[row - 2].add(&column[row - 1]);
            if !sum.equals(&column[row]) {
                return Err(
                    VerifyFailure::ConstraintNotSatisfied {
                        gate: 0,
                        constraint: 0,
                        region: 0,
                        offset: row - 2,
                        value: column[row - 2],
                    },
                );
            }
            row = row + 1;
        }
        Ok(())
    }

    /// Ties `cell` to row `row` of the public inputs.
    pub fn expose_public(&self, cell: &Fe, instance: &Vec<Fe>, row: usize) -> (r: Result<(), VerifyFailure>)
        requires
            row < instance@.len(),
        ensures
            r.is_ok() == (cell.value() == instance@[row as int].value()),
            r matches Err(e) ==> e == (VerifyFailure::InstanceMismatch { row }),
    {
        if cell.equals(&instance[row]) {
            Ok(())
        } else {
            Err(VerifyFailure::InstanceMismatch { row })
        }
    }
}

/// Proves that the tenth term of the sequence that starts with public inputs 0 and 1 is public
/// input 2.
pub struct FiboCircuit;

impl FiboCircuit {
    /// Fills the sequence from the public inputs and checks it: accepted exactly when public
    /// input 2 is its tenth term.
    pub fn synthesize(&self, instance: &Vec<Fe>) -> (r: Result<(), VerifyFailure>)
        requires
            instance@.len() >= 3,
        ensures
            r.is_ok() == (instance@[2].value() == fib_term(
                instance@[0].value(),
                instance@[1].value(),
                (FIBO_ROWS - 1) as nat,
            )),
            r matches Err(e) ==> e == (VerifyFailure::InstanceMismatch { row: 2 }),
    {
        let chip = FiboChip::construct(FiboChip::configure(0, 0));
        let column = chip.assign(instance, FIBO_ROWS);
        let checked = chip.check_add(&column);
        proof {
            assert forall|i: int| 2 <= i < column@.len() implies #[trigger] column@[i].value() == (
            column@[i - 2].value() + column@[i - 1].value()) % modulus() by {
                assert(column@[i - 2].value() == fib_term(instance@[0].value(), instance@[1].value(), (i - 2) as nat));
                assert(column@[i - 1].value() == fib_term(instance@[0].value(), instance@[1].value(), (i - 1) as nat));
            }
        }
        match checked {
            Ok(()) => {},
            Err(e) => {
                return Err(e);
            },
        }
        let out = column[FIBO_ROWS - 1];
        chip.expose_public(&out, instance, 2)
    }
}

} // verus!

//! Range-check, zero-test and equality gadgets over the Pallas base field: the witnesses that
//! each gadget assigns, and the constraint checks that an arithmetization engine applies to them.
//!
//! - `field`: field elements, with arithmetic from `pasta_curves`.
//! - `table`: the lookup table of the integers `0 .. 2^K`.
//! - `helpers` and `decompose`: the running-sum decomposition of a value into `K`-bit limbs,
//!   each checked against the table, proving that the value fits in `N` bits.
//! - `range_check`: the polynomial check of a small range, and the lookup check.
//! - `is_zero` and `is_equal`: the zero test by an inverse witness, and the equality check.
//! - `fibonacci`: a sequence in which each term is the sum of the two before it.
//! - `failure`: why an assignment is rejected.

pub mod decompose;
pub mod failure;
pub mod fibonacci;
pub mod field;
pub mod helpers;
pub mod is_equal;
pub mod is_zero;
pub mod range_check;
pub mod table;

use crate::field::Fe;
use vstd::arithmetic::power2::pow2;
use vstd::bits::{lemma_u64_pow2_no_overflow, lemma_u64_shl_is_mul};
use vstd::prelude::*;

verus! {

/// A lookup table of the integers `0 .. 2^num_bits`, in order, as field elements.
pub struct RangeTableConfig {
    num_bits: usize,
    values: Vec<Fe>,
}

impl RangeTableConfig {
    /// The width `K` of the table: it holds `2^K` entries.
    pub closed spec fn bits(&self) -> nat {
        self.num_bits as nat
    }

    /// The entries of the table, in order.
    pub closed spec fn entries(&self) -> Seq<Fe> {
        self.values@
    }

    /// The table holds exactly the integers `0 .. 2^K`, entry `i` being `i`.
    pub open spec fn wf(&self) -> bool {
        &&& 1 <= self.bits() <= 63
        &&& self.entries().len() == pow2(self.bits())
        &&& forall|i: int|
            0 <= i < self.entries().len() ==> #[trigger] self.entries()[i].value() == i
    }

    /// Builds the table of the integers `0 .. 2^num_bits`.
    pub fn load(num_bits: usize) -> (r: RangeTableConfig)
        requires
            1 <= num_bits <= 63,
        ensures
            r.wf(),
            r.bits() == num_bits,
    {
        proof {
            lemma_u64_pow2_no_overflow(num_bits as nat);
            lemma_u64_shl_is_mul(1, num_bits as u64);
        }
        let size: u64 = 1u64 << (num_bits as u64);
        let mut values: Vec<Fe> = Vec::new();
        let mut i: u64 = 0;
        while i < size
            invariant
                size == pow2(num_bits as nat),
                0 <= i <= size,
                values@.len() == i,
                forall|j: int| 0 <= j < i ==> #[trigger] values@[j].value() == j,
            decreases size - i,
        {
            values.push(Fe::from_u64(i));
            i = i + 1;
        }
        RangeTableConfig { num_bits, values }
    }

    /// The width `K` of the table.
    pub fn num_bits(&self) -> (r: usize)
        ensures
            r == self.bits(),
    {
        self.num_bits
    }

    /// The number of entries, `2^K`.
    pub fn len(&self) -> (r: usize)
        ensures
            r == self.entries().len(),
    {
        self.values.len()
    }

    /// Entry `i` of the table.
    pub fn entry(&self, i: usize) -> (r: Fe)
        requires
            i < self.entries().len(),
        ensures
            r == self.entries()[i as int],
    {
        self.values[i]
    }

    /// Whether `x` is one of the entries, found by a scan of the table.
    pub fn contains(&self, x: &Fe) -> (r: bool)
        requires
            self.wf(),
        ensures
            r == (exists|i: int|
                0 <= i < self.entries().len() && #[trigger] self.entries()[i].value()
                    == x.value()),
            r == (x.value() < pow2(self.bits())),
    {
        proof {
            x.lemma_range();
        }
        let mut i: usize = 0;
        while i < self.values.len()
            invariant
                self.wf(),
                0 <= i <= self.entries().len(),
                forall|j: int| 0 <= j < i ==> #[trigger] self.entries()[j].value() != x.value(),
            decreases self.entries().len() - i,
        {
            if self.values[i].equals(x) {
                return true;
            }
            i = i + 1;
        }
        proof {
            if x.value() < pow2(self.bits()) {
                assert(self.entries()[x.value()].value() == x.value());
            }
        }
        false
    }
}

/// The table built with width `K` holds exactly `2^K` entries, which are the integers
/// `0 .. 2^K` in order, and so are pairwise distinct.
pub proof fn lemma_table_exact(t: RangeTableConfig)
    requires
        t.wf(),
    ensures
        t.entries().len() == pow2(t.bits()),
        forall|i: int| 0 <= i < t.entries().len() ==> #[trigger] t.entries()[i].value() == i,
        forall|i: int, j: int|
            0 <= i < j < t.entries().len() ==> #[trigger] t.entries()[i].value()
                != #[trigger] t.entries()[j].value(),
{
}

} // verus!

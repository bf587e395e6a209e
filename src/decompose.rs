use crate::failure::VerifyFailure;
use crate::field::{modulus, Fe};
use crate::helpers::{compute_running_sum, limb, shifted};
use crate::table::RangeTableConfig;
use vstd::arithmetic::div_mod::{
    lemma_div_denominator, lemma_div_pos_is_pos, lemma_fundamental_div_mod, lemma_mod_breakdown,
    lemma_mod_pos_bound, lemma_small_mod,
};
use vstd::arithmetic::power2::{lemma_pow2_adds, lemma_pow2_pos, pow2};
use vstd::bits::{lemma_u64_pow2_no_overflow, lemma_u64_shl_is_mul};
use vstd::prelude::*;

verus! {

/// The region that holds the witnessed value.
pub const WITNESS_REGION: usize = 1;

/// The region that holds the running sum.
pub const DECOMPOSE_REGION: usize = 2;

/// The limb that rows `i` and `i + 1` of a running sum encode: `c_i = z_i - z_{i+1} * 2^K`,
/// computed in the field.
pub open spec fn chunk_at(zs: Seq<Fe>, i: int, k: nat) -> int {
    (zs[i].value() - (zs[i + 1 as int].value() * pow2(k)) % modulus()) % modulus()
}

/// Row `i` of a running sum passes the lookup: its limb is below `2^K`.
pub open spec fn row_in_table(zs: Seq<Fe>, i: int, k: nat) -> bool {
    chunk_at(zs, i, k) < pow2(k)
}

/// Every limb of the running sum `zs` lies in the table of width `k`, and the final term is zero.
pub open spec fn decomposition_holds(zs: Seq<Fe>, k: nat) -> bool {
    &&& forall|i: int| 0 <= i < zs.len() - 1 ==> #[trigger] row_in_table(zs, i, k)
    &&& zs.last().value() == 0
}

/// The limbs that the first `c` rows of `zs` encode, read little-endian in base `2^k`.
pub open spec fn recombined(zs: Seq<Fe>, c: nat, k: nat) -> int
    decreases c,
{
    if c == 0 {
        0
    } else {
        recombined(zs, (c - 1) as nat, k) + chunk_at(zs, c - 1, k) * pow2(((c - 1) * k) as nat)
    }
}

/// The lowest `c` limbs of `v` in base `2^k` make up `v mod 2^{ck}`.
proof fn lemma_limbs_low_part(zs: Seq<Fe>, v: int, c: nat, k: nat)
    requires
        0 <= v,
        1 <= k,
        forall|i: int| 0 <= i < c ==> #[trigger] chunk_at(zs, i, k) == limb(v, i as nat, k),
    ensures
        recombined(zs, c, k) == v % pow2(c * k) as int,
    decreases c,
{
    if c == 0 {
        vstd::arithmetic::power2::lemma2_to64();
        assert(v % 1 == 0);
    } else {
        let c1 = (c - 1) as nat;
        lemma_limbs_low_part(zs, v, c1, k);
        lemma_pow2_pos(c1 * k);
        lemma_pow2_pos(k);
        lemma_mod_breakdown(v, pow2(c1 * k) as int, pow2(k) as int);
        lemma_pow2_adds(c1 * k, k);
        assert(c1 * k + k == c * k) by (nonlinear_arith)
            requires
                c1 + 1 == c,
        ;
        assert(chunk_at(zs, c1 as int, k) == limb(v, c1, k));
        assert(recombined(zs, c, k) == v % pow2(c1 * k) as int + limb(v, c1, k) * pow2(c1 * k));
        assert(limb(v, c1, k) * pow2(c1 * k) == pow2(c1 * k) * limb(v, c1, k)) by (nonlinear_arith);
    }
}

/// A running sum whose terms are `z_i = value / 2^{iK}` passes every check exactly when
/// `value < 2^N`, where `N = C * K`: each recomputed limb is limb `i` of the value, so every
/// lookup passes, the final term is `value / 2^N`, and the limbs, read back in base `2^K`,
/// give `value mod 2^N`, which is `value` itself when it fits in `N` bits.
pub proof fn lemma_decomposition_exact(value: Fe, zs: Seq<Fe>, num_bits: nat, k: nat)
    requires
        1 <= k,
        num_bits % k == 0,
        zs.len() == num_bits / k + 1,
        forall|i: int| 0 <= i < zs.len() ==> #[trigger] zs[i].value() == shifted(
            value.value(),
            i as nat,
            k,
        ),
    ensures
        forall|i: int|
            0 <= i < zs.len() - 1 ==> #[trigger] chunk_at(zs, i, k) == limb(value.value(), i as nat, k),
        forall|i: int| 0 <= i < zs.len() - 1 ==> #[trigger] row_in_table(zs, i, k),
        decomposition_holds(zs, k) == (value.value() < pow2(num_bits)),
        recombined(zs, num_bits / k, k) == value.value() % pow2(num_bits) as int,
        value.value() < pow2(num_bits) ==> recombined(zs, num_bits / k, k) == value.value(),
{
    let v = value.value();
    value.lemma_range();
    lemma_pow2_pos(k);
    let c = num_bits / k;
    assert(c * k == num_bits) by {
        lemma_fundamental_div_mod(num_bits as int, k as int);
    }
    assert forall|i: int| 0 <= i < zs.len() - 1 implies #[trigger] chunk_at(zs, i, k) == limb(v, i as nat, k) by {
        lemma_chunk_is_limb(zs, v, i as nat, k);
    }
    lemma_limbs_low_part(zs, v, c, k);
    assert forall|i: int| 0 <= i < zs.len() - 1 implies #[trigger] row_in_table(zs, i, k) by {
        lemma_pow2_pos((i * k) as nat);
        lemma_div_pos_is_pos(v, pow2((i * k) as nat) as int);
        lemma_mod_pos_bound(v / pow2((i * k) as nat) as int, pow2(k) as int);
    }
    lemma_pow2_pos(num_bits);
    assert(zs.last() == zs[c as int]);
    assert(zs.last().value() == v / pow2(num_bits) as int);
    lemma_fundamental_div_mod(v, pow2(num_bits) as int);
    lemma_mod_pos_bound(v, pow2(num_bits) as int);
    let q = v / pow2(num_bits) as int;
    lemma_div_pos_is_pos(v, pow2(num_bits) as int);
    if v < pow2(num_bits) {
        lemma_small_mod(v as nat, pow2(num_bits));
        assert(q == 0) by (nonlinear_arith)
            requires
                v == pow2(num_bits) * q + v,
                pow2(num_bits) > 0,
        ;
    } else {
        assert(q != 0) by (nonlinear_arith)
            requires
                v == pow2(num_bits) * q + v % pow2(num_bits) as int,
                (v % (pow2(num_bits) as int)) < pow2(num_bits),
                v >= pow2(num_bits),
        ;
    }
}

/// Rows `i` and `i + 1` of the running sum of `v` encode limb `i` of `v`.
proof fn lemma_chunk_is_limb(zs: Seq<Fe>, v: int, i: nat, k: nat)
    requires
        0 <= v < modulus(),
        1 <= k,
        i + 1 < zs.len(),
        zs[i as int].value() == shifted(v, i, k),
        zs[i + 1 as int].value() == shifted(v, (i + 1) as nat, k),
    ensures
        chunk_at(zs, i as int, k) == limb(v, i, k),
{
    let p2 = pow2(k) as int;
    let base = pow2(i * k) as int;
    lemma_pow2_pos(k);
    lemma_pow2_pos(i * k);
    let y = v / base;
    lemma_div_pos_is_pos(v, base);
    vstd::arithmetic::div_mod::lemma_div_is_ordered_by_denominator(v, 1, base);
    assert(v / 1 == v);
    lemma_div_denominator(v, base, p2);
    lemma_pow2_adds(i * k, k);
    assert(i * k + k == (i + 1) * k) by (nonlinear_arith);
    assert(zs[i + 1 as int].value() == y / p2);
    lemma_fundamental_div_mod(y, p2);
    lemma_mod_pos_bound(y, p2);
    assert(y / p2 * p2 == p2 * (y / p2)) by (nonlinear_arith);
    assert(0 <= (y / p2) * p2 <= y);
    lemma_small_mod(((y / p2) * p2) as nat, modulus() as nat);
    assert(y - (y / p2) * p2 == y % p2);
    lemma_small_mod((y % p2) as nat, modulus() as nat);
}

/// The running-sum range check: a running sum in limbs of `K` bits, each limb checked against
/// a table of the integers `0 .. 2^K`.
pub struct DecomposeConfig {
    lookup_table: RangeTableConfig,
}

impl DecomposeConfig {
    /// The lookup table that the limbs are checked against.
    pub closed spec fn table(&self) -> RangeTableConfig {
        self.lookup_table
    }

    /// Sets up the check with a table of width `lookup_num_bits`.
    pub fn configure(lookup_num_bits: usize) -> (r: DecomposeConfig)
        requires
            1 <= lookup_num_bits <= 63,
        ensures
            r.table().wf(),
            r.table().bits() == lookup_num_bits,
    {
        DecomposeConfig { lookup_table: RangeTableConfig::load(lookup_num_bits) }
    }

    /// The lookup table that the limbs are checked against.
    pub fn lookup_table(&self) -> (r: &RangeTableConfig)
        ensures
            *r == self.table(),
    {
        &self.lookup_table
    }

    /// The running sum `z_0, ..., z_C` of `value` in limbs of `K` bits, `C = num_bits / K`:
    /// `z_0` is `value` itself and each later term is the one before with its lowest limb
    /// shifted out.
    pub fn assign(&self, value: Fe, num_bits: usize) -> (r: Vec<Fe>)
        requires
            self.table().wf(),
            num_bits <= 256,
            num_bits as nat % self.table().bits() == 0,
        ensures
            r@.len() == num_bits as nat / self.table().bits() + 1,
            forall|i: int| 0 <= i < r@.len() ==> #[trigger] r@[i].value() == shifted(
                value.value(),
                i as nat,
                self.table().bits(),
            ),
    {
        let k = self.lookup_table.num_bits();
        let tail = compute_running_sum(value, num_bits, k);
        let mut running_sum: Vec<Fe> = Vec::new();
        running_sum.push(value);
        proof {
            vstd::arithmetic::power2::lemma2_to64();
            assert(value.value() / 1 == value.value());
            assert(0 * k == 0);
            assert(running_sum@[0].value() == shifted(value.value(), 0, k as nat));
        }
        let mut i: usize = 0;
        while i < tail.len()
            invariant
                k == self.table().bits(),
                0 <= i <= tail@.len(),
                running_sum@.len() == i + 1,
                forall|j: int|
                    0 <= j < tail@.len() ==> #[trigger] tail@[j].value() == shifted(
                        value.value(),
                        (j + 1) as nat,
                        k as nat,
                    ),
                forall|j: int| 0 <= j <= i ==> #[trigger] running_sum@[j].value() == shifted(
                    value.value(),
                    j as nat,
                    k as nat,
                ),
            decreases tail@.len() - i,
        {
            running_sum.push(tail[i]);
            proof {
                assert(running_sum@[i + 1] == tail@[i as int]);
            }
            i = i + 1;
        }
        running_sum
    }

    /// Checks a running sum: each limb `z_i - z_{i+1} * 2^K` must be a table entry, and the
    /// final term must be zero. Reports the first lookup that fails, else the final term.
    pub fn verify(&self, running_sum: &Vec<Fe>) -> (r: Result<(), VerifyFailure>)
        requires
            self.table().wf(),
            running_sum@.len() >= 1,
        ensures
            r.is_ok() == decomposition_holds(running_sum@, self.table().bits()),
            r matches Err(VerifyFailure::Lookup { lookup_index, region, offset }) ==> {
                &&& lookup_index == 0
                &&& region == DECOMPOSE_REGION
                &&& offset < running_sum@.len() - 1
                &&& !row_in_table(running_sum@, offset as int, self.table().bits())
                &&& forall|j: int|
                    0 <= j < offset ==> #[trigger] row_in_table(
                        running_sum@,
                        j,
                        self.table().bits(),
                    )
            },
            r matches Err(VerifyFailure::ConstantMismatch { region, offset }) ==> {
                &&& region == DECOMPOSE_REGION
                &&& offset == running_sum@.len() - 1
            },
            r matches Err(e) ==> (e is Lookup || e is ConstantMismatch),
    {
        let k = self.lookup_table.num_bits();
        proof {
            lemma_u64_pow2_no_overflow(k as nat);
            lemma_u64_shl_is_mul(1, k as u64);
        }
        let two_k = Fe::from_u64(1u64 << (k as u64));
        let n = running_sum.len();
        let mut i: usize = 0;
        while i + 1 < n
            invariant
                self.table().wf(),
                k == self.table().bits(),
                two_k.value() == pow2(k as nat),
                n == running_sum@.len(),
                n >= 1,
                0 <= i < n,
                forall|j: int| 0 <= j < i ==> #[trigger] row_in_table(running_sum@, j, k as nat),
            decreases n - i,
        {
            let shifted_next = running_sum[i + 1].mul(&two_k);
            let c = running_sum[i].sub(&shifted_next);
            if !self.lookup_table.contains(&c) {
                proof {
                    assert(c.value() == chunk_at(running_sum@, i as int, k as nat));
                    assert(!row_in_table(running_sum@, i as int, k as nat));
                }
                return Err(VerifyFailure::Lookup { lookup_index: 0, region: DECOMPOSE_REGION, offset: i });
            }
            i = i + 1;
        }
        if !running_sum[n - 1].is_zero() {
            return Err(VerifyFailure::ConstantMismatch { region: DECOMPOSE_REGION, offset: n - 1 });
        }
        Ok(())
    }
}

/// A value to be proved to fit in `num_bits` bits.
pub struct DecomposeRangeCheckCircuit {
    pub value: Fe,
    pub num_bits: usize,
}

impl DecomposeRangeCheckCircuit {
    /// Witnesses the running sum of `value` and checks it: accepted exactly when `value` fits
    /// in `num_bits` bits.
    pub fn synthesize(&self, config: &DecomposeConfig) -> (r: Result<(), VerifyFailure>)
        requires
            config.table().wf(),
            self.num_bits <= 256,
            self.num_bits as nat % config.table().bits() == 0,
        ensures
            r.is_ok() == (self.value.value() < pow2(self.num_bits as nat)),
            r matches Err(e) ==> e == (VerifyFailure::ConstantMismatch {
                region: DECOMPOSE_REGION,
                offset: (self.num_bits as nat / config.table().bits()) as usize,
            }),
    {
        let running_sum = config.assign(self.value, self.num_bits);
        proof {
            lemma_decomposition_exact(self.value, running_sum@, self.num_bits as nat, config.table().bits());
        }
        config.verify(&running_sum)
    }
}

} // verus!

use crate::field::{bit_of, modulus, Fe};
use vstd::arithmetic::div_mod::{
    lemma_div_denominator, lemma_fundamental_div_mod, lemma_mod_breakdown, lemma_mod_pos_bound,
    lemma_mul_mod_noop_right, lemma_small_mod,
};
use vstd::arithmetic::power2::{lemma_pow2_adds, lemma_pow2_pos, pow2};
use vstd::bits::{lemma_u64_pow2_no_overflow, lemma_u64_shl_is_mul};
use vstd::prelude::*;

verus! {

/// The unsigned integer whose little-endian bits are `b`.
pub open spec fn bits_value(b: Seq<bool>) -> int
    decreases b.len(),
{
    if b.len() == 0 {
        0
    } else {
        bits_value(b.drop_last()) + if b.last() {
            pow2((b.len() - 1) as nat) as int
        } else {
            0
        }
    }
}

/// Limb `i` of `v` in base `2^k`: bits `i*k .. (i+1)*k` of `v`.
pub open spec fn limb(v: int, i: nat, k: nat) -> int {
    (v / pow2(i * k) as int) % pow2(k) as int
}

/// What remains of `v` once its lowest `i` limbs of `k` bits are shifted out: the running sum
/// `z_i` of a decomposition of `v`.
pub open spec fn shifted(v: int, i: nat, k: nat) -> int {
    v / pow2(i * k) as int
}

proof fn lemma_bits_value_bound(b: Seq<bool>)
    ensures
        0 <= bits_value(b) < pow2(b.len()),
    decreases b.len(),
{
    if b.len() > 0 {
        lemma_bits_value_bound(b.drop_last());
        vstd::arithmetic::power2::lemma_pow2_unfold(b.len());
    } else {
        vstd::arithmetic::power2::lemma2_to64();
    }
}

/// Bits `s .. s + b.len()` of `x`, read as a number, are `(x / 2^s) % 2^len`.
proof fn lemma_bits_window(b: Seq<bool>, x: int, s: nat)
    requires
        x >= 0,
        forall|t: int| 0 <= t < b.len() ==> b[t] == bit_of(x, (s + t) as nat),
    ensures
        bits_value(b) == (x / pow2(s) as int) % pow2(b.len()) as int,
    decreases b.len(),
{
    lemma_pow2_pos(s);
    let y = x / pow2(s) as int;
    if b.len() == 0 {
        vstd::arithmetic::power2::lemma2_to64();
        assert(y % 1 == 0);
    } else {
        let k = (b.len() - 1) as nat;
        let p = b.drop_last();
        assert forall|t: int| 0 <= t < p.len() implies p[t] == bit_of(x, (s + t) as nat) by {
            assert(p[t] == b[t]);
        }
        lemma_bits_window(p, x, s);
        lemma_pow2_pos(k);
        lemma_pow2_adds(k, 1);
        vstd::arithmetic::power2::lemma2_to64();
        assert(y >= 0) by {
            vstd::arithmetic::div_mod::lemma_div_pos_is_pos(x, pow2(s) as int);
        }
        lemma_mod_breakdown(y, pow2(k) as int, 2);
        lemma_div_denominator(x, pow2(s) as int, pow2(k) as int);
        lemma_pow2_adds(s, k);
        assert(b[k as int] == bit_of(x, (s + k) as nat));
        assert(b.last() == bit_of(x, s + k));
        assert(pow2(k + 1) == pow2(k) * 2);
        assert(pow2(s + k) == pow2(s) * pow2(k));
        assert(bit_of(x, s + k) == ((y / pow2(k) as int) % 2 == 1));
        lemma_mod_pos_bound(y / pow2(k) as int, 2);
        assert(bits_value(p) == y % pow2(k) as int);
        assert(y % (pow2(k) as int * 2) == pow2(k) as int * ((y / pow2(k) as int) % 2) + y % pow2(k) as int);
        assert(bits_value(b) == bits_value(p) + if b.last() { pow2(k) as int } else { 0 });
        vstd::arithmetic::mul::lemma_mul_basics(pow2(k) as int);
        assert(pow2(b.len()) as int == pow2(k) as int * 2);
    }
}

/// The unsigned integer whose little-endian bits are `bits`.
pub fn lebs2ip(bits: &[bool]) -> (r: u64)
    requires
        bits@.len() <= 64,
    ensures
        r == bits_value(bits@),
{
    let mut acc: u64 = 0;
    let mut i: usize = 0;
    while i < bits.len()
        invariant
            bits@.len() <= 64,
            0 <= i <= bits@.len(),
            acc == bits_value(bits@.subrange(0, i as int)),
        decreases bits@.len() - i,
    {
        proof {
            let pre = bits@.subrange(0, i as int);
            let next = bits@.subrange(0, i + 1);
            assert(next.drop_last() == pre);
            lemma_bits_value_bound(pre);
            lemma_u64_pow2_no_overflow(i as nat);
            vstd::arithmetic::power2::lemma_pow2_unfold((i + 1) as nat);
            if i + 1 < 64 {
                lemma_u64_pow2_no_overflow((i + 1) as nat);
            } else {
                vstd::arithmetic::power2::lemma2_to64();
            }
            lemma_u64_shl_is_mul(1, i as u64);
        }
        let add: u64 = if bits[i] {
            1u64 << (i as u64)
        } else {
            0
        };
        acc = acc + add;
        i = i + 1;
    }
    proof {
        assert(bits@.subrange(0, bits@.len() as int) == bits@);
    }
    acc
}

/// One step of the running sum: if `zv` is `shifted(v, i, k)`, `dv` is `zv` less limb `i` and
/// `inv` is the inverse of `2^k`, then `rv = dv * inv` is `shifted(v, i + 1, k)`.
proof fn lemma_running_sum_step(v: int, i: nat, k: nat, zv: int, dv: int, inv: int, rv: int)
    requires
        0 <= v < modulus(),
        k >= 1,
        zv == shifted(v, i, k),
        dv == (zv - limb(v, i, k)) % modulus(),
        (pow2(k) * inv) % modulus() == 1,
        rv == (dv * inv) % modulus(),
    ensures
        rv == shifted(v, i + 1, k),
{
    let p2 = pow2(k) as int;
    let base = pow2(i * k) as int;
    lemma_pow2_pos(k);
    lemma_pow2_pos(i * k);
    vstd::arithmetic::div_mod::lemma_div_pos_is_pos(v, base);
    vstd::arithmetic::div_mod::lemma_div_is_ordered_by_denominator(v, 1, base);
    assert(v / 1 == v);
    let q = zv / p2;
    lemma_fundamental_div_mod(zv, p2);
    lemma_mod_pos_bound(zv, p2);
    assert(zv - limb(v, i, k) == p2 * q);
    vstd::arithmetic::div_mod::lemma_div_pos_is_pos(zv, p2);
    assert(0 <= p2 * q <= zv);
    lemma_small_mod((p2 * q) as nat, modulus() as nat);
    assert(dv == p2 * q);
    assert(dv * inv == q * (p2 * inv)) by (nonlinear_arith)
        requires
            dv == p2 * q,
    ;
    lemma_mul_mod_noop_right(q, p2 * inv, modulus());
    assert(q <= zv) by {
        vstd::arithmetic::div_mod::lemma_div_is_ordered_by_denominator(zv, 1, p2);
        assert(zv / 1 == zv);
    }
    lemma_small_mod(q as nat, modulus() as nat);
    lemma_div_denominator(v, base, p2);
    lemma_pow2_adds(i * k, k);
    assert(i * k + k == (i + 1) * k) by (nonlinear_arith);
}

/// The running sum `z_1, ..., z_C` of `value` in limbs of `lookup_num_bits` bits, where
/// `C = num_bits / lookup_num_bits`: each limb is read off the low `num_bits` bits of `value`,
/// and `z_{i+1} = (z_i - c_i) * 2^{-K}`, starting from `z_0 = value` itself.
pub fn compute_running_sum(value: Fe, num_bits: usize, lookup_num_bits: usize) -> (r: Vec<Fe>)
    requires
        1 <= lookup_num_bits <= 63,
        num_bits <= 256,
        num_bits % lookup_num_bits == 0,
    ensures
        r@.len() == num_bits / lookup_num_bits,
        forall|i: int|
            0 <= i < r@.len() ==> #[trigger] r@[i].value() == shifted(
                value.value(),
                (i + 1) as nat,
                lookup_num_bits as nat,
            ),
{
    let k = lookup_num_bits;
    let count = num_bits / k;
    let ghost v = value.value();
    proof {
        value.lemma_range();
        lemma_u64_pow2_no_overflow(k as nat);
        lemma_u64_shl_is_mul(1, k as u64);
        assert(count * k == num_bits) by {
            lemma_fundamental_div_mod(num_bits as int, k as int);
        }
    }
    let bits = value.to_le_bits();
    let two_k = Fe::from_u64(1u64 << (k as u64));
    let inv = two_k.invert().unwrap();
    let mut running_sum: Vec<Fe> = Vec::new();
    let mut z = value;
    proof {
        lemma_pow2_pos(0);
        vstd::arithmetic::power2::lemma2_to64();
        assert(shifted(v, 0, k as nat) == v / 1);
    }
    let mut i: usize = 0;
    while i < count
        invariant
            1 <= k <= 63,
            count * k == num_bits,
            num_bits <= 256,
            0 <= v < modulus(),
            v == value.value(),
            bits@.len() == 256,
            forall|t: int| 0 <= t < 256 ==> bits@[t] == bit_of(v, t as nat),
            two_k.value() == pow2(k as nat),
            (two_k.value() * inv.value()) % modulus() == 1,
            0 <= i <= count,
            running_sum@.len() == i,
            z.value() == shifted(v, i as nat, k as nat),
            forall|j: int|
                0 <= j < i ==> #[trigger] running_sum@[j].value() == shifted(
                    v,
                    (j + 1) as nat,
                    k as nat,
                ),
        decreases count - i,
    {
        assert(i * k + k <= num_bits) by (nonlinear_arith)
            requires
                i + 1 <= count,
                count * k == num_bits,
        ;
        let start = i * k;
        let mut chunk: Vec<bool> = Vec::new();
        let mut t: usize = 0;
        while t < k
            invariant
                1 <= k <= 63,
                start + k <= 256,
                bits@.len() == 256,
                0 <= t <= k,
                chunk@.len() == t,
                forall|u: int| 0 <= u < t ==> chunk@[u] == bits@[start + u],
            decreases k - t,
        {
            chunk.push(bits[start + t]);
            t = t + 1;
        }
        let c = lebs2ip(chunk.as_slice());
        proof {
            assert forall|u: int| 0 <= u < chunk@.len() implies chunk@[u] == bit_of(
                v,
                (start + u) as nat,
            ) by {}
            lemma_bits_window(chunk@, v, start as nat);
            assert(c == limb(v, i as nat, k as nat));
        }
        let c_fe = Fe::from_u64(c);
        let d = z.sub(&c_fe);
        let next = d.mul(&inv);
        proof {
            lemma_running_sum_step(v, i as nat, k as nat, z.value(), d.value(), inv.value(), next.value());
        }
        running_sum.push(next);
        z = next;
        i = i + 1;
    }
    running_sum
}

} // verus!

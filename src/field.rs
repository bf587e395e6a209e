use ff::{Field, PrimeField, PrimeFieldBits};
use halo2_proofs::pasta::Fp;
use vstd::arithmetic::power2::pow2;
use vstd::prelude::*;

verus! {

/// The order of the Pallas base field, the prime that all arithmetic is taken modulo.
pub open spec fn modulus() -> int {
    (0x40000000000000000000000000000000 * 0x80000000000000000000000000000000 * 2
        + 0x224698fc094cf91b992d30ed00000001) as int
}

/// The integer that a little-endian byte string denotes.
pub open spec fn le_value(s: Seq<u8>) -> int
    decreases s.len(),
{
    if s.len() == 0 {
        0
    } else {
        s[0] as int + 256 * le_value(s.subrange(1, s.len() as int))
    }
}

/// Bit `i` of a nonnegative integer.
pub open spec fn bit_of(v: int, i: nat) -> bool {
    (v / pow2(i) as int) % 2 == 1
}

/// An element of the Pallas base field, held as its canonical little-endian encoding.
#[derive(Clone, Copy, Debug, PartialEq, Eq)]
pub struct Fe {
    bytes: [u8; 32],
}

proof fn lemma_le_value_nonneg(s: Seq<u8>)
    ensures
        le_value(s) >= 0,
    decreases s.len(),
{
    if s.len() > 0 {
        lemma_le_value_nonneg(s.subrange(1, s.len() as int));
    }
}

proof fn lemma_le_value_zero(s: Seq<u8>)
    ensures
        (le_value(s) == 0) == (forall|i: int| 0 <= i < s.len() ==> s[i] == 0),
    decreases s.len(),
{
    if s.len() > 0 {
        let t = s.subrange(1, s.len() as int);
        lemma_le_value_zero(t);
        lemma_le_value_nonneg(t);
        if le_value(s) == 0 {
            assert forall|i: int| 0 <= i < s.len() implies s[i] == 0 by {
                if i > 0 {
                    assert(s[i] == t[i - 1]);
                }
            }
        }
        if forall|i: int| 0 <= i < s.len() ==> s[i] == 0 {
            assert forall|i: int| 0 <= i < t.len() implies t[i] == 0 by {
                assert(t[i] == s[i + 1]);
            }
        }
    }
}

/// The only multiple of `m` strictly between `-m` and `m` is zero.
pub proof fn lemma_mod_zero_in_window(x: int, m: int)
    requires
        0 < m,
        -m < x < m,
    ensures
        (x % m == 0) == (x == 0),
{
    vstd::arithmetic::div_mod::lemma_fundamental_div_mod(x, m);
    let q = x / m;
    if x % m == 0 {
        assert(x == m * q);
        assert(q == 0) by (nonlinear_arith)
            requires
                x == m * q,
                -m < x < m,
                0 < m,
        ;
    }
}

impl Fe {
    #[verifier::type_invariant]
    spec fn canonical(self) -> bool {
        le_value(self.bytes@) < modulus()
    }

    /// The integer in `[0, modulus())` that this element stands for; the encoding is canonical,
    /// so the second branch is never taken.
    pub closed spec fn value(self) -> int {
        if le_value(self.bytes@) < modulus() {
            le_value(self.bytes@)
        } else {
            0
        }
    }

    /// Every element stands for an integer in `[0, modulus())`.
    pub proof fn lemma_range(self)
        ensures
            0 <= self.value() < modulus(),
    {
        lemma_le_value_nonneg(self.bytes@);
    }

    /// The element whose value is `n`.
    pub fn from_u64(n: u64) -> (r: Fe)
        ensures
            r.value() == n,
    {
        fp_from_u64(n)
    }

    /// The sum, modulo the prime.
    pub fn add(&self, other: &Fe) -> (r: Fe)
        ensures
            r.value() == (self.value() + other.value()) % modulus(),
    {
        fp_add(self, other)
    }

    /// The difference, modulo the prime.
    pub fn sub(&self, other: &Fe) -> (r: Fe)
        ensures
            r.value() == (self.value() - other.value()) % modulus(),
    {
        fp_sub(self, other)
    }

    /// The product, modulo the prime; nonzero when both factors are.
    pub fn mul(&self, other: &Fe) -> (r: Fe)
        ensures
            r.value() == (self.value() * other.value()) % modulus(),
            self.value() != 0 && other.value() != 0 ==> r.value() != 0,
    {
        fp_mul(self, other)
    }

    /// The multiplicative inverse; none for zero.
    pub fn invert(&self) -> (r: Option<Fe>)
        ensures
            r.is_none() == (self.value() == 0),
            r matches Some(x) ==> (self.value() * x.value()) % modulus() == 1,
    {
        fp_invert(self)
    }

    /// The 256 bits of the value, least significant first.
    pub fn to_le_bits(&self) -> (r: Vec<bool>)
        ensures
            r@.len() == 256,
            forall|i: int| 0 <= i < 256 ==> r@[i] == bit_of(self.value(), i as nat),
    {
        fp_to_le_bits(self)
    }

    /// The element whose canonical little-endian encoding is `bytes`; none when `bytes`
    /// encodes an integer not below the modulus.
    pub fn from_bytes(bytes: [u8; 32]) -> (r: Option<Fe>)
        ensures
            r.is_some() == (le_value(bytes@) < modulus()),
            r matches Some(x) ==> x.value() == le_value(bytes@),
    {
        fp_from_repr(bytes)
    }

    /// The canonical little-endian encoding of this element.
    pub fn to_bytes(&self) -> (r: [u8; 32])
        ensures
            le_value(r@) == self.value(),
    {
        proof {
            use_type_invariant(self);
        }
        self.bytes
    }

    /// The additive identity.
    pub fn zero() -> (r: Fe)
        ensures
            r.value() == 0,
    {
        Fe::from_u64(0)
    }

    /// The multiplicative identity.
    pub fn one() -> (r: Fe)
        ensures
            r.value() == 1,
    {
        Fe::from_u64(1)
    }

    /// Whether this is the additive identity.
    pub fn is_zero(&self) -> (r: bool)
        ensures
            r == (self.value() == 0),
    {
        proof {
            use_type_invariant(self);
        }
        let mut i: usize = 0;
        while i < 32
            invariant
                0 <= i <= 32,
                le_value(self.bytes@) < modulus(),
                forall|j: int| 0 <= j < i ==> self.bytes@[j] == 0,
            decreases 32 - i,
        {
            if self.bytes[i] != 0 {
                proof {
                    lemma_le_value_zero(self.bytes@);
                    assert(self.bytes@[i as int] != 0);
                }
                return false;
            }
            i = i + 1;
        }
        proof {
            lemma_le_value_zero(self.bytes@);
        }
        true
    }

    /// Whether two elements are equal.
    pub fn equals(&self, other: &Fe) -> (r: bool)
        ensures
            r == (self.value() == other.value()),
    {
        proof {
            self.lemma_range();
            other.lemma_range();
        }
        let d = self.sub(other);
        proof {
            lemma_mod_zero_in_window(self.value() - other.value(), modulus());
        }
        d.is_zero()
    }
}

// The calls into `pasta_curves`. Every `Fe` holds a canonical encoding, which `to_repr` gives
// and the type invariant keeps, so `from_repr(..).unwrap()` below never fails.

/// Relies on `From<u64> for Fp` and `PrimeField::to_repr`: the element whose value is `n`.
#[verifier::external_body]
fn fp_from_u64(n: u64) -> (r: Fe)
    ensures
        r.value() == n,
{
    Fe { bytes: Fp::from(n).to_repr() }
}

/// Relies on `PrimeField::from_repr`, `Add for Fp` and `to_repr`: the sum modulo the prime.
#[verifier::external_body]
fn fp_add(x: &Fe, y: &Fe) -> (r: Fe)
    ensures
        r.value() == (x.value() + y.value()) % modulus(),
{
    let a = Fp::from_repr(x.bytes).unwrap();
    let b = Fp::from_repr(y.bytes).unwrap();
    Fe { bytes: (a + b).to_repr() }
}

/// Relies on `PrimeField::from_repr`, `Sub for Fp` and `to_repr`: the difference modulo the prime.
#[verifier::external_body]
fn fp_sub(x: &Fe, y: &Fe) -> (r: Fe)
    ensures
        r.value() == (x.value() - y.value()) % modulus(),
{
    let a = Fp::from_repr(x.bytes).unwrap();
    let b = Fp::from_repr(y.bytes).unwrap();
    Fe { bytes: (a - b).to_repr() }
}

/// Relies on `PrimeField::from_repr`, `Mul for Fp` and `to_repr`: the product modulo the
/// prime, which is nonzero when both factors are, the modulus being prime.
#[verifier::external_body]
fn fp_mul(x: &Fe, y: &Fe) -> (r: Fe)
    ensures
        r.value() == (x.value() * y.value()) % modulus(),
        x.value() != 0 && y.value() != 0 ==> r.value() != 0,
{
    let a = Fp::from_repr(x.bytes).unwrap();
    let b = Fp::from_repr(y.bytes).unwrap();
    Fe { bytes: (a * b).to_repr() }
}

/// Relies on `Field::invert`: no inverse for zero, the multiplicative inverse otherwise.
#[verifier::external_body]
fn fp_invert(x: &Fe) -> (r: Option<Fe>)
    ensures
        r.is_none() == (x.value() == 0),
        r matches Some(inv) ==> (x.value() * inv.value()) % modulus() == 1,
{
    let a = Fp::from_repr(x.bytes).unwrap();
    match Option::<Fp>::from(a.invert()) {
        Some(f) => Some(Fe { bytes: f.to_repr() }),
        None => None,
    }
}

/// Relies on `PrimeFieldBits::to_le_bits`: the 256 bits of the value, least significant first.
#[verifier::external_body]
fn fp_to_le_bits(x: &Fe) -> (r: Vec<bool>)
    ensures
        r@.len() == 256,
        forall|i: int| 0 <= i < 256 ==> r@[i] == bit_of(x.value(), i as nat),
{
    let a = Fp::from_repr(x.bytes).unwrap();
    a.to_le_bits().iter().by_vals().collect()
}

/// Relies on `PrimeField::from_repr`: the element whose canonical little-endian encoding is
/// `bytes`, or none when `bytes` encodes an integer not below the modulus.
#[verifier::external_body]
fn fp_from_repr(bytes: [u8; 32]) -> (r: Option<Fe>)
    ensures
        r.is_some() == (le_value(bytes@) < modulus()),
        r matches Some(x) ==> x.value() == le_value(bytes@),
{
    match Option::<Fp>::from(Fp::from_repr(bytes)) {
        Some(f) => Some(Fe { bytes: f.to_repr() }),
        None => None,
    }
}

} // verus!

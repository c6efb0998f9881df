//! The prime field over which challenges are drawn and domains are built.
use vstd::prelude::*;

verus! {

/// The field modulus, `15 * 2^27 + 1`.
pub const MODULUS: u64 = 2013265921;

/// The largest `k` such that `2^k` divides `MODULUS - 1`: the field holds a
/// multiplicative subgroup of every size `2^k` with `k <= TWO_ADICITY`.
pub const TWO_ADICITY: u32 = 27;

pub open spec fn modulus() -> nat {
    MODULUS as nat
}

/// An element of the prime field, kept in canonical form (below the modulus).
#[derive(Clone, Copy, Debug, PartialEq, Eq, Structural)]
pub struct Fp {
    value: u64,
}

impl Fp {
    /// The integer in `0..MODULUS` that this element stands for.
    pub closed spec fn val(self) -> nat {
        self.value as nat
    }

    pub open spec fn wf(self) -> bool {
        self.val() < modulus()
    }

    /// The element `n mod MODULUS`.
    pub closed spec fn spec_from_nat(n: nat) -> Fp {
        Fp { value: (n % modulus()) as u64 }
    }

    pub broadcast proof fn lemma_spec_from_nat(n: nat)
        ensures
            #[trigger] Fp::spec_from_nat(n).val() == n % modulus(),
            Fp::spec_from_nat(n).wf(),
    {
    }

    /// Two elements are equal exactly when their canonical integers are.
    pub broadcast proof fn lemma_val_injective(a: Fp, b: Fp)
        ensures
            #![trigger a.val(), b.val()]
            a.val() == b.val() ==> a == b,
    {
    }

    /// The element `x mod MODULUS`.
    pub fn from_u64(x: u64) -> (r: Fp)
        ensures
            r.wf(),
            r.val() == x as nat % modulus(),
    {
        Fp { value: x % MODULUS }
    }

    /// The additive identity.
    pub fn zero() -> (r: Fp)
        ensures
            r.wf(),
            r.val() == 0,
    {
        Fp { value: 0 }
    }

    /// The multiplicative identity.
    pub fn one() -> (r: Fp)
        ensures
            r.wf(),
            r.val() == 1,
    {
        Fp { value: 1 }
    }

    /// The canonical integer of this element.
    pub fn to_u64(&self) -> (r: u64)
        ensures
            r as nat == self.val(),
    {
        self.value
    }

    pub fn is_zero(&self) -> (r: bool)
        ensures
            r == (self.val() == 0),
    {
        self.value == 0
    }

    pub fn add(&self, other: &Fp) -> (r: Fp)
        requires
            self.wf(),
            other.wf(),
        ensures
            r.wf(),
            r.val() == (self.val() + other.val()) % modulus(),
    {
        Fp { value: (self.value + other.value) % MODULUS }
    }

    pub fn sub(&self, other: &Fp) -> (r: Fp)
        requires
            self.wf(),
            other.wf(),
        ensures
            r.wf(),
            r.val() == (self.val() + modulus() - other.val()) as nat % modulus(),
    {
        Fp { value: (self.value + (MODULUS - other.value)) % MODULUS }
    }

    pub fn mul(&self, other: &Fp) -> (r: Fp)
        requires
            self.wf(),
            other.wf(),
        ensures
            r.wf(),
            r.val() == (self.val() * other.val()) % modulus(),
    {
        proof {
            assert(self.value * other.value <= (MODULUS - 1) * (MODULUS - 1)) by (nonlinear_arith)
                requires
                    self.value < MODULUS,
                    other.value < MODULUS,
            ;
        }
        Fp { value: (self.value * other.value) % MODULUS }
    }
}

/// A second vector with the same elements.
pub fn copy_scalars(v: &Vec<Fp>) -> (r: Vec<Fp>)
    ensures
        r@ == v@,
{
    let mut r: Vec<Fp> = Vec::new();
    let mut i: usize = 0;
    while i < v.len()
        invariant
            0 <= i <= v@.len(),
            r@ == v@.take(i as int),
        decreases v@.len() - i,
    {
        r.push(v[i]);
        proof {
            assert(r@ =~= v@.take(i + 1));
        }
        i = i + 1;
    }
    proof {
        assert(r@ =~= v@);
    }
    r
}

} // verus!

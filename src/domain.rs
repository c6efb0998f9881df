//! Multiplicative evaluation domains of power-of-two size.
use vstd::prelude::*;
use vstd::arithmetic::power::{pow, lemma_pow_adds, lemma_pow1};
use vstd::arithmetic::power2::{pow2, lemma_pow2_unfold, lemma_pow2_strictly_increases, lemma2_to64};
use vstd::arithmetic::div_mod::{lemma_mul_mod_noop, lemma_small_mod};
use crate::field::{Fp, MODULUS, TWO_ADICITY, modulus};

verus! {

/// Whether a domain holding at least `n` points exists in the field.
pub open spec fn domain_exists(n: nat) -> bool {
    n <= pow2(TWO_ADICITY as nat)
}

/// `Z_H(x) = x^|H| - 1` for a subgroup `H` of size `2^log_size`, reduced.
pub open spec fn vanishing_value(log_size: nat, x: nat) -> nat {
    ((pow(x as int, pow2(log_size)) % (modulus() as int)) as nat + modulus() - 1) as nat % modulus()
}

/// Whether `2^k` is the smallest power of two, within the field's two-adicity,
/// that is at least `n`.
pub open spec fn is_smallest_log_size(k: nat, n: nat) -> bool {
    &&& k <= TWO_ADICITY
    &&& n <= pow2(k)
    &&& k == 0 || pow2((k - 1) as nat) < n
}

/// The exponent of the domain built for `n` points (meaningful where
/// `domain_exists(n)`).
pub open spec fn smallest_log_size(n: nat) -> nat {
    choose|k: nat| is_smallest_log_size(k, n)
}

/// At most one exponent is the smallest for a given `n`.
pub proof fn lemma_smallest_log_size_unique(k1: nat, k2: nat, n: nat)
    requires
        is_smallest_log_size(k1, n),
        is_smallest_log_size(k2, n),
    ensures
        k1 == k2,
{
    if k1 < k2 && k1 < (k2 - 1) as nat {
        lemma_pow2_strictly_increases(k1, (k2 - 1) as nat);
    } else if k2 < k1 && k2 < (k1 - 1) as nat {
        lemma_pow2_strictly_increases(k2, (k1 - 1) as nat);
    }
}

/// A multiplicative subgroup of the field of size `2^log_size`.
#[derive(Clone, Copy, Debug, PartialEq, Eq, Structural)]
pub struct EvaluationDomain {
    size: u64,
    log_size: u32,
}

impl EvaluationDomain {
    #[verifier::type_invariant]
    spec fn inv(self) -> bool {
        &&& self.log_size <= TWO_ADICITY
        &&& self.size as nat == pow2(self.log_size as nat)
    }

    /// The base-two logarithm of the number of points.
    pub closed spec fn log(self) -> nat {
        self.log_size as nat
    }

    /// The number of points, `2^log()`.
    pub fn size(&self) -> (r: u64)
        ensures
            r as nat == pow2(self.log()),
    {
        proof {
            use_type_invariant(self);
        }
        self.size
    }

    /// The smallest domain with at least `num_coeffs` points, or `None` when
    /// the field has no subgroup that large.
    pub fn new(num_coeffs: usize) -> (r: Option<EvaluationDomain>)
        ensures
            r is Some <==> domain_exists(num_coeffs as nat),
            r matches Some(d) ==> is_smallest_log_size(d.log(), num_coeffs as nat),
            r matches Some(d) ==> d.log() == smallest_log_size(num_coeffs as nat),
    {
        let mut size: u64 = 1;
        let mut log_size: u32 = 0;
        proof {
            reveal(pow2);
            lemma2_to64();
        }
        while size < num_coeffs as u64 && log_size < TWO_ADICITY
            invariant
                log_size <= TWO_ADICITY,
                size as nat == pow2(log_size as nat),
                size <= pow2(TWO_ADICITY as nat),
                log_size == 0 || pow2((log_size - 1) as nat) < num_coeffs,
            decreases TWO_ADICITY - log_size,
        {
            proof {
                lemma_pow2_unfold((log_size + 1) as nat);
                lemma2_to64();
                if log_size + 1 < TWO_ADICITY {
                    lemma_pow2_strictly_increases((log_size + 1) as nat, TWO_ADICITY as nat);
                }
            }
            size = size * 2;
            log_size = log_size + 1;
        }
        if size < num_coeffs as u64 {
            None
        } else {
            proof {
                if log_size < TWO_ADICITY {
                    lemma_pow2_strictly_increases(log_size as nat, TWO_ADICITY as nat);
                }
            }
            proof {
                assert(is_smallest_log_size(log_size as nat, num_coeffs as nat));
                lemma_smallest_log_size_unique(
                    log_size as nat,
                    smallest_log_size(num_coeffs as nat),
                    num_coeffs as nat,
                );
            }
            Some(EvaluationDomain { size, log_size })
        }
    }

    /// Evaluates the vanishing polynomial `x^size - 1` of this domain at `x`.
    pub fn evaluate_vanishing_polynomial(&self, x: &Fp) -> (r: Fp)
        requires
            x.wf(),
        ensures
            r.wf(),
            r.val() == vanishing_value(self.log(), x.val()),
    {
        proof {
            use_type_invariant(self);
        }
        let mut acc: Fp = *x;
        let mut i: u32 = 0;
        proof {
            reveal(pow2);
            lemma2_to64();
            lemma_pow1(x.val() as int);
            lemma_small_mod(x.val(), MODULUS as nat);
        }
        while i < self.log_size
            invariant
                i <= self.log_size,
                x.wf(),
                acc.wf(),
                acc.val() as int == pow(x.val() as int, pow2(i as nat)) % (MODULUS as int),
            decreases self.log_size - i,
        {
            proof {
                let p = pow(x.val() as int, pow2(i as nat));
                lemma_mul_mod_noop(p, p, MODULUS as int);
                lemma_pow_adds(x.val() as int, pow2(i as nat), pow2(i as nat));
                lemma_pow2_unfold((i + 1) as nat);
            }
            acc = acc.mul(&acc);
            i = i + 1;
        }
        acc.sub(&Fp::one())
    }
}

} // verus!

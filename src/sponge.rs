//! The transcript from which the verifier draws its challenges.
use vstd::prelude::*;
use vstd::arithmetic::div_mod::{lemma_mul_mod_noop, lemma_small_mod, lemma_add_mod_noop};
use crate::field::{Fp, MODULUS, modulus};

verus! {

/// A Fiat-Shamir transcript over `Fp`: it absorbs protocol messages and
/// squeezes challenges, each a function of everything absorbed before.
///
/// The two spec functions are the model: what `n` squeezes yield from a given
/// state, and the state that absorbing a sequence of elements leads to.
pub trait AlgebraicSponge: Sized {
    /// The `n` elements that squeezing from this state yields, and the state after.
    spec fn squeeze_model(&self, n: nat) -> (Seq<Fp>, Self);

    /// The state reached by absorbing `elems` from this state.
    spec fn absorb_model(&self, elems: Seq<Fp>) -> Self;

    /// Squeezing `n` elements yields `n` elements.
    proof fn lemma_squeeze_len(&self, n: nat)
        ensures
            self.squeeze_model(n).0.len() == n,
    ;

    fn absorb_native_field_elements(&mut self, elems: &Vec<Fp>)
        requires
            forall|i: int| 0 <= i < elems@.len() ==> (#[trigger] elems@[i]).wf(),
        ensures
            *final(self) == old(self).absorb_model(elems@),
    ;

    fn squeeze_nonnative_field_elements(&mut self, n: usize) -> (r: Vec<Fp>)
        ensures
            r@.len() == n,
            forall|i: int| 0 <= i < r@.len() ==> (#[trigger] r@[i]).wf(),
            (r@, *final(self)) == old(self).squeeze_model(n as nat),
    ;
}

/// The round constant added after each power map.
pub const ROUND_CONSTANT: u64 = 1234567891;

/// The permutation `s -> s^7 + ROUND_CONSTANT`. As `gcd(7, MODULUS - 1) = 1`,
/// `s -> s^7` is a bijection of the field.
pub open spec fn permute(s: Fp) -> Fp {
    let v = s.val();
    Fp::spec_from_nat(v * v * v * v * v * v * v + ROUND_CONSTANT as nat)
}

/// A width-one duplex sponge over `Fp`: absorbing `x` replaces the state `s`
/// with `permute(s + x)`, and each squeeze replaces `s` with `permute(s)` and
/// outputs it. It is deterministic, and makes no claim of cryptographic strength.
#[derive(Clone, Copy, Debug, PartialEq, Eq, Structural)]
pub struct DuplexSponge {
    state: Fp,
}

fn permute_exec(s: Fp) -> (r: Fp)
    requires
        s.wf(),
    ensures
        r.wf(),
        r == permute(s),
{
    let s2 = s.mul(&s);
    let s4 = s2.mul(&s2);
    let s6 = s4.mul(&s2);
    let s7 = s6.mul(&s);
    let r = s7.add(&Fp::from_u64(ROUND_CONSTANT));
    proof {
        let v = s.val() as int;
        let m = MODULUS as int;
        broadcast use Fp::lemma_spec_from_nat, Fp::lemma_val_injective;
        lemma_small_mod(s.val(), modulus());
        lemma_mul_mod_noop(v * v, v * v, m);
        assert((v * v) * (v * v) == v * v * v * v) by (nonlinear_arith);
        lemma_mul_mod_noop(v * v * v * v, v * v, m);
        assert((v * v * v * v) * (v * v) == v * v * v * v * v * v) by (nonlinear_arith);
        lemma_mul_mod_noop(v * v * v * v * v * v, v, m);
        lemma_small_mod(ROUND_CONSTANT as nat, modulus());
        lemma_add_mod_noop(v * v * v * v * v * v * v, ROUND_CONSTANT as int, m);
        assert(0 <= v * v * v * v * v * v * v) by (nonlinear_arith)
            requires
                0 <= v,
        ;
        assert(r.val() == permute(s).val());
    }
    r
}

impl DuplexSponge {
    #[verifier::type_invariant]
    spec fn inv(self) -> bool {
        self.state.wf()
    }

    /// The current state of the sponge.
    pub closed spec fn state(self) -> Fp {
        self.state
    }

    /// A sponge whose state starts at `seed mod MODULUS`.
    pub fn new(seed: u64) -> (r: DuplexSponge)
        ensures
            r.state().val() == seed as nat % modulus(),
    {
        DuplexSponge { state: Fp::from_u64(seed) }
    }
}

impl AlgebraicSponge for DuplexSponge {
    closed spec fn squeeze_model(&self, n: nat) -> (Seq<Fp>, DuplexSponge)
        decreases n,
    {
        if n == 0 {
            (Seq::empty(), *self)
        } else {
            let (prefix, s) = self.squeeze_model((n - 1) as nat);
            let next = permute(s.state);
            (prefix.push(next), DuplexSponge { state: next })
        }
    }

    closed spec fn absorb_model(&self, elems: Seq<Fp>) -> DuplexSponge
        decreases elems.len(),
    {
        if elems.len() == 0 {
            *self
        } else {
            let s = self.absorb_model(elems.drop_last());
            let sum = Fp::spec_from_nat(s.state.val() + elems.last().val());
            DuplexSponge { state: permute(sum) }
        }
    }

    proof fn lemma_squeeze_len(&self, n: nat)
        decreases n,
    {
        if n > 0 {
            self.lemma_squeeze_len((n - 1) as nat);
        }
    }

    fn absorb_native_field_elements(&mut self, elems: &Vec<Fp>)
    {
        let ghost start = *self;
        proof {
            use_type_invariant(&*self);
        }
        let mut i: usize = 0;
        proof {
            assert(elems@.take(0) =~= Seq::<Fp>::empty());
        }
        while i < elems.len()
            invariant
                0 <= i <= elems@.len(),
                forall|j: int| 0 <= j < elems@.len() ==> (#[trigger] elems@[j]).wf(),
                self.state.wf(),
                *self == start.absorb_model(elems@.take(i as int)),
            decreases elems@.len() - i,
        {
            proof {
                broadcast use Fp::lemma_spec_from_nat, Fp::lemma_val_injective;
                assert(elems@.take(i + 1).drop_last() =~= elems@.take(i as int));
            }
            let sum = self.state.add(&elems[i]);
            self.state = permute_exec(sum);
            i = i + 1;
        }
        proof {
            assert(elems@.take(i as int) =~= elems@);
        }
    }

    fn squeeze_nonnative_field_elements(&mut self, n: usize) -> (r: Vec<Fp>)
    {
        let ghost start = *self;
        proof {
            use_type_invariant(&*self);
        }
        let mut r: Vec<Fp> = Vec::new();
        let mut i: usize = 0;
        while i < n
            invariant
                0 <= i <= n,
                r@.len() == i,
                self.state.wf(),
                forall|j: int| 0 <= j < r@.len() ==> (#[trigger] r@[j]).wf(),
                (r@, *self) == start.squeeze_model(i as nat),
            decreases n - i,
        {
            let next = permute_exec(self.state);
            self.state = next;
            r.push(next);
            i = i + 1;
        }
        r
    }
}

} // verus!

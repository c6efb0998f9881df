//! The verifier of the algebraic holographic proof, made non-interactive by
//! Fiat-Shamir: four rounds that draw challenges from a transcript, and the
//! query set that follows from them.
use vstd::prelude::*;
use crate::field::{Fp, copy_scalars};
use crate::domain::{EvaluationDomain, domain_exists, smallest_log_size, vanishing_value};
use crate::sponge::AlgebraicSponge;

verus! {

/// The sizes of one indexed circuit.
#[derive(Clone, Copy, Debug, PartialEq, Eq, Structural)]
pub struct CircuitInfo {
    pub num_public_inputs: usize,
    pub num_variables: usize,
    pub num_constraints: usize,
    pub num_non_zero_a: usize,
    pub num_non_zero_b: usize,
    pub num_non_zero_c: usize,
}

impl CircuitInfo {
    pub open spec fn is_square(self) -> bool {
        self.num_constraints == self.num_variables
    }

    /// Whether the field holds each of the five domains the circuit needs.
    pub open spec fn domains_exist(self) -> bool {
        &&& domain_exists(self.num_constraints as nat)
        &&& domain_exists(self.num_non_zero_a as nat)
        &&& domain_exists(self.num_non_zero_b as nat)
        &&& domain_exists(self.num_non_zero_c as nat)
        &&& domain_exists(self.num_public_inputs as nat)
    }
}

#[derive(Clone, Copy, Debug, PartialEq, Eq, Structural)]
pub enum AHPError {
    /// The constraint system has as many constraints as variables only when square.
    NonSquareMatrix,
    /// A requested domain is larger than the field's largest power-of-two subgroup.
    DomainTooLarge,
    /// A challenge fell on a root of the constraint domain's vanishing polynomial.
    ChallengeDegenerate,
    /// A round was run on a state that is not waiting for it.
    RoundOutOfOrder,
}

/// The multiplicative identity, as a spec value.
pub open spec fn one() -> Fp {
    Fp::spec_from_nat(1)
}

/// The circuits of a batch, each given by its content-derived identifier and
/// its number of instances, in increasing order of identifier: the one order
/// in which prover and verifier both walk the batch.
pub struct BatchSizes {
    entries: Vec<(u64, usize)>,
}

/// Identifiers strictly increase and every circuit has at least one instance.
pub open spec fn valid_batch(s: Seq<(u64, usize)>) -> bool {
    &&& forall|i: int| 0 <= i < s.len() ==> (#[trigger] s[i]).1 >= 1
    &&& forall|i: int, j: int| 0 <= i < j < s.len() ==> (#[trigger] s[i]).0 < (#[trigger] s[j]).0
}

impl View for BatchSizes {
    type V = Seq<(u64, usize)>;

    closed spec fn view(&self) -> Seq<(u64, usize)> {
        self.entries@
    }
}

impl BatchSizes {
    #[verifier::type_invariant]
    spec fn inv(self) -> bool {
        valid_batch(self.entries@)
    }

    /// The batch with these entries, or `None` unless identifiers strictly
    /// increase and every count is at least one.
    pub fn new(entries: Vec<(u64, usize)>) -> (r: Option<BatchSizes>)
        ensures
            r is Some <==> valid_batch(entries@),
            r matches Some(b) ==> (b@ == entries@),
    {
        let mut i: usize = 0;
        while i < entries.len()
            invariant
                0 <= i <= entries@.len(),
                valid_batch(entries@.take(i as int)),
            decreases entries@.len() - i,
        {
            if entries[i].1 == 0 {
                proof {
                    assert(entries@[i as int].1 == 0);
                }
                return None;
            }
            if i > 0 && entries[i - 1].0 >= entries[i].0 {
                proof {
                    assert(!(entries@[i - 1].0 < entries@[i as int].0));
                }
                return None;
            }
            proof {
                let t = entries@.take(i + 1);
                assert forall|a: int, b: int| 0 <= a < b < t.len() implies (#[trigger] t[a]).0 < (
                #[trigger] t[b]).0 by {
                    if b < i {
                        assert(entries@.take(i as int)[a] == t[a]);
                        assert(entries@.take(i as int)[b] == t[b]);
                    } else if a < i - 1 {
                        assert(entries@.take(i as int)[a] == t[a]);
                        assert(entries@.take(i as int)[i - 1] == t[i - 1]);
                    }
                }
                assert forall|a: int| 0 <= a < t.len() implies (#[trigger] t[a]).1 >= 1 by {
                    if a < i {
                        assert(entries@.take(i as int)[a] == t[a]);
                    }
                }
            }
            i = i + 1;
        }
        proof {
            assert(entries@.take(i as int) =~= entries@);
        }
        Some(BatchSizes { entries })
    }

    pub fn len(&self) -> (r: usize)
        ensures
            r == self@.len(),
    {
        self.entries.len()
    }

    pub fn get(&self, i: usize) -> (r: (u64, usize))
        requires
            i < self@.len(),
        ensures
            r == self@[i as int],
            r.1 >= 1,
    {
        proof {
            use_type_invariant(self);
        }
        self.entries[i]
    }

    /// A second batch with the same entries.
    pub fn copy(&self) -> (r: BatchSizes)
        ensures
            r@ == self@,
    {
        proof {
            use_type_invariant(self);
        }
        let mut entries: Vec<(u64, usize)> = Vec::new();
        let mut i: usize = 0;
        while i < self.entries.len()
            invariant
                0 <= i <= self.entries@.len(),
                entries@ == self.entries@.take(i as int),
            decreases self.entries@.len() - i,
        {
            entries.push(self.entries[i]);
            proof {
                assert(entries@ =~= self.entries@.take(i + 1));
            }
            i = i + 1;
        }
        proof {
            assert(entries@ =~= self.entries@);
        }
        BatchSizes { entries }
    }
}

/// The combiners of one circuit: one scalar for the circuit, and one for each
/// of its instances, the first of which is the identity.
pub struct BatchCombiners {
    pub circuit_combiner: Fp,
    pub instance_combiners: Vec<Fp>,
}

/// Each circuit's identifier with its circuit combiner and instance combiners.
pub open spec fn combiners_view(v: Seq<(u64, BatchCombiners)>) -> Seq<(u64, Fp, Seq<Fp>)> {
    Seq::new(v.len(), |i: int| (v[i].0, v[i].1.circuit_combiner, v[i].1.instance_combiners@))
}

/// How many challenges a circuit with `count` instances draws: one for every
/// instance after the first, and one more for its circuit combiner unless it
/// is the first circuit of the batch.
pub open spec fn draws_for(count: usize, first: bool) -> nat {
    (count - 1 + if first {
        0int
    } else {
        1int
    }) as nat
}

/// The combiners of one circuit, from the challenges drawn for it.
pub open spec fn combiner_entry(id: u64, count: usize, first: bool, drawn: Seq<Fp>) -> (
    u64,
    Fp,
    Seq<Fp>,
) {
    let circuit = if first {
        one()
    } else {
        drawn[count - 1]
    };
    (id, circuit, seq![one()] + drawn.take(count - 1))
}

/// The combiners of a batch, drawn circuit after circuit from `fs`, with the
/// transcript state that follows.
pub open spec fn combiners_model<R: AlgebraicSponge>(sizes: Seq<(u64, usize)>, fs: R) -> (
    Seq<(u64, Fp, Seq<Fp>)>,
    R,
)
    decreases sizes.len(),
{
    if sizes.len() == 0 {
        (Seq::empty(), fs)
    } else {
        let (prev, s) = combiners_model(sizes.drop_last(), fs);
        let (id, count) = sizes.last();
        let first = sizes.len() == 1;
        let (drawn, next) = s.squeeze_model(draws_for(count, first));
        (prev.push(combiner_entry(id, count, first, drawn)), next)
    }
}

/// In every batch the first circuit's combiner is the identity, and every
/// later circuit's combiner is the last challenge drawn for that circuit, from
/// the transcript state that the circuits before it left. Each circuit keeps
/// its identifier and has one instance combiner per instance, the first of
/// which is the identity.
pub proof fn lemma_batch_combiners<R: AlgebraicSponge>(sizes: Seq<(u64, usize)>, fs: R)
    requires
        valid_batch(sizes),
    ensures
        combiners_model(sizes, fs).0.len() == sizes.len(),
        sizes.len() > 0 ==> combiners_model(sizes, fs).0[0].1 == one(),
        forall|i: int|
            1 <= i < sizes.len() ==> (#[trigger] combiners_model(sizes, fs).0[i]).1
                == combiners_model(sizes.take(i), fs).1.squeeze_model(sizes[i].1 as nat).0[sizes[i].1
                - 1],
        forall|i: int|
            0 <= i < sizes.len() ==> {
                let c = #[trigger] combiners_model(sizes, fs).0[i];
                &&& c.0 == sizes[i].0
                &&& c.2.len() == sizes[i].1
                &&& c.2[0] == one()
            },
    decreases sizes.len(),
{
    if sizes.len() > 0 {
        let prev = sizes.drop_last();
        assert(valid_batch(prev)) by {
            assert forall|i: int| 0 <= i < prev.len() implies (#[trigger] prev[i]).1 >= 1 by {
                assert(prev[i] == sizes[i]);
            }
            assert forall|i: int, j: int| 0 <= i < j < prev.len() implies (#[trigger] prev[i]).0 < (
            #[trigger] prev[j]).0 by {
                assert(prev[i] == sizes[i]);
                assert(prev[j] == sizes[j]);
            }
        }
        lemma_batch_combiners(prev, fs);
        let (pc, s) = combiners_model(prev, fs);
        let last = sizes.len() - 1;
        let (id, count) = sizes.last();
        let first = sizes.len() == 1;
        assert(count >= 1) by {
            assert(sizes[last] == sizes.last());
        }
        s.lemma_squeeze_len(draws_for(count, first));
        let all = combiners_model(sizes, fs).0;
        assert(all == pc.push(combiner_entry(id, count, first, s.squeeze_model(draws_for(count, first)).0)));
        assert forall|i: int| 1 <= i < sizes.len() implies (#[trigger] all[i]).1 == combiners_model(
            sizes.take(i),
            fs,
        ).1.squeeze_model(sizes[i].1 as nat).0[sizes[i].1 - 1] by {
            if i < last {
                assert(sizes.take(i) =~= prev.take(i));
                assert(all[i] == pc[i]);
                assert(prev[i] == sizes[i]);
            } else {
                assert(sizes.take(i) =~= prev);
            }
        }
        assert forall|i: int| 0 <= i < sizes.len() implies {
            let c = #[trigger] all[i];
            &&& c.0 == sizes[i].0
            &&& c.2.len() == sizes[i].1
            &&& c.2[0] == one()
        } by {
            if i < last {
                assert(all[i] == pc[i]);
                assert(prev[i] == sizes[i]);
            }
        }
    }
}

/// The verifier's first message.
pub struct FirstMessage {
    /// The point at which the outer sumcheck is evaluated.
    pub alpha: Fp,
    /// The weight of matrix B against A.
    pub eta_b: Fp,
    /// The weight of matrix C against A.
    pub eta_c: Fp,
    /// The combiners of each circuit of the batch, in batch order.
    pub batch_combiners: Vec<(u64, BatchCombiners)>,
}

impl FirstMessage {
    pub open spec fn view(&self) -> (Fp, Fp, Fp, Seq<(u64, Fp, Seq<Fp>)>) {
        (self.alpha, self.eta_b, self.eta_c, combiners_view(self.batch_combiners@))
    }
}

/// The verifier's second message.
#[derive(Clone, Copy, Debug, PartialEq, Eq, Structural)]
pub struct SecondMessage {
    pub beta: Fp,
}

/// The verifier's third message.
#[derive(Clone, Copy, Debug, PartialEq, Eq, Structural)]
pub struct ThirdMessage {
    pub r_b: Fp,
    pub r_c: Fp,
}

/// The verifier's state between rounds.
pub struct VerifierState {
    pub batch_sizes: BatchSizes,
    pub input_domain: EvaluationDomain,
    pub constraint_domain: EvaluationDomain,
    pub non_zero_a_domain: EvaluationDomain,
    pub non_zero_b_domain: EvaluationDomain,
    pub non_zero_c_domain: EvaluationDomain,
    pub first_round_message: Option<FirstMessage>,
    pub second_round_message: Option<SecondMessage>,
    pub third_round_message: Option<ThirdMessage>,
    pub gamma: Option<Fp>,
}

impl VerifierState {
    /// The round this state waits for: 2, 3 or 4 after as many rounds, 5 once
    /// all four are done, and 0 for a state no sequence of rounds leads to.
    pub open spec fn next_round(&self) -> nat {
        match (
            self.first_round_message,
            self.second_round_message,
            self.third_round_message,
            self.gamma,
        ) {
            (Some(_), None, None, None) => 2,
            (Some(_), Some(_), None, None) => 3,
            (Some(_), Some(_), Some(_), None) => 4,
            (Some(_), Some(_), Some(_), Some(_)) => 5,
            _ => 0,
        }
    }

    /// The state that the first round leaves for `info`, `sizes` and the message `m`.
    pub open spec fn is_first_round_state(
        &self,
        info: CircuitInfo,
        sizes: Seq<(u64, usize)>,
        m: (Fp, Fp, Fp, Seq<(u64, Fp, Seq<Fp>)>),
    ) -> bool {
        &&& self.batch_sizes@ == sizes
        &&& self.constraint_domain.log() == smallest_log_size(info.num_constraints as nat)
        &&& self.non_zero_a_domain.log() == smallest_log_size(info.num_non_zero_a as nat)
        &&& self.non_zero_b_domain.log() == smallest_log_size(info.num_non_zero_b as nat)
        &&& self.non_zero_c_domain.log() == smallest_log_size(info.num_non_zero_c as nat)
        &&& self.input_domain.log() == smallest_log_size(info.num_public_inputs as nat)
        &&& (self.first_round_message matches Some(f) && f.view() == m)
        &&& self.second_round_message is None
        &&& self.third_round_message is None
        &&& self.gamma is None
    }
}

/// What the first round owes, once the circuit is square and its domains exist:
/// three challenges, then the batch's combiners, all drawn from `start`; then a
/// failure exactly when `alpha` is a root of the constraint domain's vanishing
/// polynomial.
pub open spec fn first_round_outcome<R: AlgebraicSponge>(
    info: CircuitInfo,
    sizes: Seq<(u64, usize)>,
    start: R,
    r: Result<(FirstMessage, VerifierState), AHPError>,
    end: R,
) -> bool {
    let (e, s1) = start.squeeze_model(3);
    let (combs, s2) = combiners_model(sizes, s1);
    let degenerate = vanishing_value(smallest_log_size(info.num_constraints as nat), e[0].val())
        == 0;
    &&& end == s2
    &&& degenerate ==> (r matches Err(AHPError::ChallengeDegenerate))
    &&& !degenerate ==> (r matches Ok((m, st)) && m.view() == (e[0], e[1], e[2], combs)
        && st.is_first_round_state(info, sizes, m.view()))
}

fn copy_combiners(v: &Vec<(u64, BatchCombiners)>) -> (r: Vec<(u64, BatchCombiners)>)
    ensures
        combiners_view(r@) == combiners_view(v@),
{
    let mut r: Vec<(u64, BatchCombiners)> = Vec::new();
    let mut i: usize = 0;
    while i < v.len()
        invariant
            0 <= i <= v@.len(),
            r@.len() == i,
            combiners_view(r@) == combiners_view(v@.take(i as int)),
        decreases v@.len() - i,
    {
        let entry = &v[i];
        let copied = BatchCombiners {
            circuit_combiner: entry.1.circuit_combiner,
            instance_combiners: copy_scalars(&entry.1.instance_combiners),
        };
        let ghost prev = r@;
        r.push((entry.0, copied));
        proof {
            let a = combiners_view(r@);
            let b = combiners_view(v@.take(i + 1));
            assert forall|k: int| 0 <= k < i + 1 implies a[k] == b[k] by {
                if k < i {
                    assert(r@[k] == prev[k]);
                    assert(combiners_view(prev)[k] == combiners_view(v@.take(i as int))[k]);
                }
            }
            assert(a =~= b);
        }
        i = i + 1;
    }
    proof {
        assert(v@.take(i as int) =~= v@);
    }
    r
}

/// The polynomials whose openings the verifier asks for.
#[derive(Clone, Copy, Debug, PartialEq, Eq, Structural)]
pub enum PolynomialLabel {
    /// The outer sumcheck's `g_1`.
    G1,
    /// The witness polynomial `z_b`.
    ZB,
    /// The outer sumcheck's combined relation.
    LincheckSumcheck,
    /// The inner sumcheck's `g_a`.
    GA,
    /// The inner sumcheck's `g_b`.
    GB,
    /// The inner sumcheck's `g_c`.
    GC,
    /// The inner sumcheck's combined relation.
    MatrixSumcheck,
}

/// The challenge a query point comes from.
#[derive(Clone, Copy, Debug, PartialEq, Eq, Structural)]
pub enum PointLabel {
    Beta,
    Gamma,
}

/// One opening: a polynomial, the named point, and its value.
#[derive(Clone, Copy, Debug, PartialEq, Eq, Structural)]
pub struct Query {
    pub polynomial: PolynomialLabel,
    pub point_label: PointLabel,
    pub point: Fp,
}

/// The openings the prover owes: the outer sumcheck's polynomials at `beta`,
/// the inner sumcheck's at `gamma`.
pub open spec fn query_set_model(beta: Fp, gamma: Fp) -> Seq<Query> {
    seq![
        Query { polynomial: PolynomialLabel::G1, point_label: PointLabel::Beta, point: beta },
        Query { polynomial: PolynomialLabel::ZB, point_label: PointLabel::Beta, point: beta },
        Query { polynomial: PolynomialLabel::LincheckSumcheck, point_label: PointLabel::Beta, point: beta },
        Query { polynomial: PolynomialLabel::GA, point_label: PointLabel::Gamma, point: gamma },
        Query { polynomial: PolynomialLabel::GB, point_label: PointLabel::Gamma, point: gamma },
        Query { polynomial: PolynomialLabel::GC, point_label: PointLabel::Gamma, point: gamma },
        Query { polynomial: PolynomialLabel::MatrixSumcheck, point_label: PointLabel::Gamma, point: gamma },
    ]
}

/// The set of openings, in a fixed order.
pub struct QuerySet {
    pub queries: Vec<Query>,
}

impl View for QuerySet {
    type V = Seq<Query>;

    open spec fn view(&self) -> Seq<Query> {
        self.queries@
    }
}

impl QuerySet {
    pub fn new(beta: Fp, gamma: Fp) -> (r: QuerySet)
        ensures
            r@ == query_set_model(beta, gamma),
    {
        let queries = vec![
            Query { polynomial: PolynomialLabel::G1, point_label: PointLabel::Beta, point: beta },
            Query { polynomial: PolynomialLabel::ZB, point_label: PointLabel::Beta, point: beta },
            Query { polynomial: PolynomialLabel::LincheckSumcheck, point_label: PointLabel::Beta, point: beta },
            Query { polynomial: PolynomialLabel::GA, point_label: PointLabel::Gamma, point: gamma },
            Query { polynomial: PolynomialLabel::GB, point_label: PointLabel::Gamma, point: gamma },
            Query { polynomial: PolynomialLabel::GC, point_label: PointLabel::Gamma, point: gamma },
            Query { polynomial: PolynomialLabel::MatrixSumcheck, point_label: PointLabel::Gamma, point: gamma },
        ];
        proof {
            assert(queries@ =~= query_set_model(beta, gamma));
        }
        QuerySet { queries }
    }
}

/// Every element is canonical.
pub open spec fn all_wf(s: Seq<Fp>) -> bool {
    forall|i: int| 0 <= i < s.len() ==> (#[trigger] s[i]).wf()
}

/// The four rounds run from the transcript state `fs`, where the prover's
/// messages `c1`, `c2`, `c3` are absorbed after rounds one, two and three:
/// the challenges `alpha, eta_b, eta_c, beta, r_b, r_c, gamma` in this order,
/// the batch's combiners, and the transcript state at the end.
pub open spec fn protocol_model<R: AlgebraicSponge>(
    sizes: Seq<(u64, usize)>,
    fs: R,
    c1: Seq<Fp>,
    c2: Seq<Fp>,
    c3: Seq<Fp>,
) -> (Seq<Fp>, Seq<(u64, Fp, Seq<Fp>)>, R) {
    let (e1, s1) = fs.squeeze_model(3);
    let (combs, s2) = combiners_model(sizes, s1);
    let (e2, s3) = s2.absorb_model(c1).squeeze_model(1);
    let (e3, s4) = s3.absorb_model(c2).squeeze_model(2);
    let (e4, s5) = s4.absorb_model(c3).squeeze_model(1);
    (e1 + e2 + e3 + e4, combs, s5)
}

/// Whether `x` is a root of the vanishing polynomial of the constraint domain
/// built for `info`.
pub open spec fn degenerate_for(info: CircuitInfo, x: Fp) -> bool {
    vanishing_value(smallest_log_size(info.num_constraints as nat), x.val()) == 0
}

/// Two runs of the four rounds on the same batch, from the same transcript
/// state and with the same prover messages, draw the same challenges and
/// combiners and leave the transcript in the same state.
pub proof fn lemma_protocol_deterministic<R: AlgebraicSponge>(
    sizes: Seq<(u64, usize)>,
    a: R,
    b: R,
    c1: Seq<Fp>,
    c2: Seq<Fp>,
    c3: Seq<Fp>,
)
    requires
        a == b,
    ensures
        protocol_model(sizes, a, c1, c2, c3) == protocol_model(sizes, b, c1, c2, c3),
{
}

/// The algebraic holographic proof for rank-one constraint systems; its
/// associated functions are the verifier's rounds.
pub struct AHPForR1CS;

impl AHPForR1CS {
    /// Builds the circuit's five domains, then draws `alpha`, `eta_b`, `eta_c`
    /// and the batch's combiners, and checks that `alpha` is no root of the
    /// constraint domain's vanishing polynomial.
    pub fn verifier_first_round<R: AlgebraicSponge>(
        index_info: CircuitInfo,
        batch_sizes: &BatchSizes,
        fs_rng: &mut R,
    ) -> (r: Result<(FirstMessage, VerifierState), AHPError>)
        ensures
            !index_info.is_square() ==> (r matches Err(AHPError::NonSquareMatrix)) && *final(fs_rng)
                == *old(fs_rng),
            index_info.is_square() && !index_info.domains_exist() ==> (r matches Err(
                AHPError::DomainTooLarge,
            )) && *final(fs_rng) == *old(fs_rng),
            index_info.is_square() && index_info.domains_exist() ==> first_round_outcome(
                index_info,
                batch_sizes@,
                *old(fs_rng),
                r,
                *final(fs_rng),
            ),
    {
        if index_info.num_constraints != index_info.num_variables {
            return Err(AHPError::NonSquareMatrix);
        }
        let constraint_domain = match EvaluationDomain::new(index_info.num_constraints) {
            Some(d) => d,
            None => return Err(AHPError::DomainTooLarge),
        };
        let non_zero_a_domain = match EvaluationDomain::new(index_info.num_non_zero_a) {
            Some(d) => d,
            None => return Err(AHPError::DomainTooLarge),
        };
        let non_zero_b_domain = match EvaluationDomain::new(index_info.num_non_zero_b) {
            Some(d) => d,
            None => return Err(AHPError::DomainTooLarge),
        };
        let non_zero_c_domain = match EvaluationDomain::new(index_info.num_non_zero_c) {
            Some(d) => d,
            None => return Err(AHPError::DomainTooLarge),
        };
        let input_domain = match EvaluationDomain::new(index_info.num_public_inputs) {
            Some(d) => d,
            None => return Err(AHPError::DomainTooLarge),
        };

        let elems = fs_rng.squeeze_nonnative_field_elements(3);
        let alpha = elems[0];
        let eta_b = elems[1];
        let eta_c = elems[2];
        let ghost s1 = *fs_rng;

        let mut batch_combiners: Vec<(u64, BatchCombiners)> = Vec::new();
        let n = batch_sizes.len();
        let mut i: usize = 0;
        proof {
            broadcast use Fp::lemma_spec_from_nat, Fp::lemma_val_injective;
            assert(batch_sizes@.take(0) =~= Seq::<(u64, usize)>::empty());
        }
        while i < n
            invariant
                0 <= i <= n,
                n == batch_sizes@.len(),
                batch_combiners@.len() == i,
                (combiners_view(batch_combiners@), *fs_rng) == combiners_model(
                    batch_sizes@.take(i as int),
                    s1,
                ),
            decreases n - i,
        {
            let (id, count) = batch_sizes.get(i);
            let extra: usize = if i == 0 {
                0
            } else {
                1
            };
            let drawn = fs_rng.squeeze_nonnative_field_elements(count - 1 + extra);
            let unit = Fp::one();
            proof {
                broadcast use Fp::lemma_spec_from_nat, Fp::lemma_val_injective;
                assert(unit.val() == one().val());
            }
            let mut instance_combiners: Vec<Fp> = Vec::new();
            instance_combiners.push(unit);
            let mut k: usize = 0;
            proof {
                assert(instance_combiners@ =~= seq![one()] + drawn@.take(0));
            }
            while k < count - 1
                invariant
                    0 <= k <= count - 1,
                    drawn@.len() == count - 1 + extra,
                    instance_combiners@ == seq![one()] + drawn@.take(k as int),
                decreases count - 1 - k,
            {
                instance_combiners.push(drawn[k]);
                proof {
                    assert(instance_combiners@ =~= seq![one()] + drawn@.take(k + 1));
                }
                k = k + 1;
            }
            let circuit_combiner = if i == 0 {
                unit
            } else {
                drawn[count - 1]
            };
            let ghost prev = batch_combiners@;
            batch_combiners.push((id, BatchCombiners { circuit_combiner, instance_combiners }));
            proof {
                broadcast use Fp::lemma_spec_from_nat, Fp::lemma_val_injective;
                let t = batch_sizes@.take(i + 1);
                assert(t.drop_last() =~= batch_sizes@.take(i as int));
                assert(t.last() == (id, count));
                let entry = combiner_entry(id, count, i == 0, drawn@);
                let a = combiners_view(batch_combiners@);
                let b = combiners_view(prev).push(entry);
                assert forall|j: int| 0 <= j < i + 1 implies a[j] == b[j] by {
                    if j < i {
                        assert(batch_combiners@[j] == prev[j]);
                    }
                }
                assert(a =~= b);
            }
            i = i + 1;
        }
        proof {
            assert(batch_sizes@.take(n as int) =~= batch_sizes@);
        }

        let vanishing = constraint_domain.evaluate_vanishing_polynomial(&alpha);
        if vanishing.is_zero() {
            return Err(AHPError::ChallengeDegenerate);
        }

        let recorded = FirstMessage {
            alpha,
            eta_b,
            eta_c,
            batch_combiners: copy_combiners(&batch_combiners),
        };
        let message = FirstMessage { alpha, eta_b, eta_c, batch_combiners };
        let new_state = VerifierState {
            batch_sizes: batch_sizes.copy(),
            input_domain,
            constraint_domain,
            non_zero_a_domain,
            non_zero_b_domain,
            non_zero_c_domain,
            first_round_message: Some(recorded),
            second_round_message: None,
            third_round_message: None,
            gamma: None,
        };
        Ok((message, new_state))
    }

    /// Draws `beta`, and checks that it is no root of the constraint domain's
    /// vanishing polynomial.
    pub fn verifier_second_round<R: AlgebraicSponge>(state: VerifierState, fs_rng: &mut R) -> (r:
        Result<(SecondMessage, VerifierState), AHPError>)
        ensures
            state.next_round() != 2 ==> (r matches Err(AHPError::RoundOutOfOrder)) && *final(fs_rng)
                == *old(fs_rng),
            state.next_round() == 2 ==> {
                let (e, s) = old(fs_rng).squeeze_model(1);
                let degenerate = vanishing_value(state.constraint_domain.log(), e[0].val()) == 0;
                &&& *final(fs_rng) == s
                &&& degenerate ==> (r matches Err(AHPError::ChallengeDegenerate))
                &&& !degenerate ==> (r matches Ok((m, st)) && m == SecondMessage { beta: e[0] }
                    && st == (VerifierState { second_round_message: Some(m), ..state }))
            },
    {
        if !(state.first_round_message.is_some() && state.second_round_message.is_none()
            && state.third_round_message.is_none() && state.gamma.is_none()) {
            return Err(AHPError::RoundOutOfOrder);
        }
        let elems = fs_rng.squeeze_nonnative_field_elements(1);
        let beta = elems[0];
        if state.constraint_domain.evaluate_vanishing_polynomial(&beta).is_zero() {
            return Err(AHPError::ChallengeDegenerate);
        }
        let message = SecondMessage { beta };
        let mut state = state;
        state.second_round_message = Some(message);
        Ok((message, state))
    }

    /// Draws `r_b` and `r_c`, the weights that merge the B and C sumchecks.
    pub fn verifier_third_round<R: AlgebraicSponge>(state: VerifierState, fs_rng: &mut R) -> (r:
        Result<(ThirdMessage, VerifierState), AHPError>)
        ensures
            state.next_round() != 3 ==> (r matches Err(AHPError::RoundOutOfOrder)) && *final(fs_rng)
                == *old(fs_rng),
            state.next_round() == 3 ==> {
                let (e, s) = old(fs_rng).squeeze_model(2);
                &&& *final(fs_rng) == s
                &&& r matches Ok((m, st)) && m == ThirdMessage { r_b: e[0], r_c: e[1] } && st == (
                VerifierState { third_round_message: Some(m), ..state })
            },
    {
        if !(state.first_round_message.is_some() && state.second_round_message.is_some()
            && state.third_round_message.is_none() && state.gamma.is_none()) {
            return Err(AHPError::RoundOutOfOrder);
        }
        let elems = fs_rng.squeeze_nonnative_field_elements(2);
        let message = ThirdMessage { r_b: elems[0], r_c: elems[1] };
        let mut state = state;
        state.third_round_message = Some(message);
        Ok((message, state))
    }

    /// Draws `gamma`, the point of the final opening check; nothing is sent.
    pub fn verifier_fourth_round<R: AlgebraicSponge>(state: VerifierState, fs_rng: &mut R) -> (r:
        Result<VerifierState, AHPError>)
        ensures
            state.next_round() != 4 ==> (r matches Err(AHPError::RoundOutOfOrder)) && *final(fs_rng)
                == *old(fs_rng),
            state.next_round() == 4 ==> {
                let (e, s) = old(fs_rng).squeeze_model(1);
                &&& *final(fs_rng) == s
                &&& r matches Ok(st) && st == (VerifierState { gamma: Some(e[0]), ..state })
            },
    {
        if !(state.first_round_message.is_some() && state.second_round_message.is_some()
            && state.third_round_message.is_some() && state.gamma.is_none()) {
            return Err(AHPError::RoundOutOfOrder);
        }
        let elems = fs_rng.squeeze_nonnative_field_elements(1);
        let mut state = state;
        state.gamma = Some(elems[0]);
        Ok(state)
    }

    /// The openings the prover owes for a state after all four rounds.
    pub fn verifier_query_set(state: VerifierState) -> (r: (QuerySet, VerifierState))
        requires
            state.next_round() == 5,
        ensures
            r.0@ == query_set_model(state.second_round_message->Some_0.beta, state.gamma->Some_0),
            r.1 == state,
    {
        let beta = match state.second_round_message {
            Some(m) => m.beta,
            None => Fp::zero(),
        };
        let gamma = match state.gamma {
            Some(g) => g,
            None => Fp::zero(),
        };
        (QuerySet::new(beta, gamma), state)
    }

    /// Runs the four rounds, absorbing the prover's messages `c1`, `c2`, `c3`
    /// after rounds one, two and three, and returns the three messages and the
    /// final state.
    pub fn verifier_rounds<R: AlgebraicSponge>(
        index_info: CircuitInfo,
        batch_sizes: &BatchSizes,
        fs_rng: &mut R,
        c1: &Vec<Fp>,
        c2: &Vec<Fp>,
        c3: &Vec<Fp>,
    ) -> (r: Result<(FirstMessage, SecondMessage, ThirdMessage, VerifierState), AHPError>)
        requires
            all_wf(c1@),
            all_wf(c2@),
            all_wf(c3@),
        ensures
            !index_info.is_square() ==> (r matches Err(AHPError::NonSquareMatrix)),
            index_info.is_square() && !index_info.domains_exist() ==> (r matches Err(
                AHPError::DomainTooLarge,
            )),
            index_info.is_square() && index_info.domains_exist() ==> {
                let (ch, combs, end) = protocol_model(batch_sizes@, *old(fs_rng), c1@, c2@, c3@);
                let ok = !degenerate_for(index_info, ch[0]) && !degenerate_for(index_info, ch[3]);
                &&& ok ==> (r matches Ok((m1, m2, m3, st)) && seq![
                    m1.alpha,
                    m1.eta_b,
                    m1.eta_c,
                    m2.beta,
                    m3.r_b,
                    m3.r_c,
                    st.gamma->Some_0,
                ] == ch && combiners_view(m1.batch_combiners@) == combs && *final(fs_rng) == end
                    && st.next_round() == 5)
                &&& !ok ==> (r matches Err(AHPError::ChallengeDegenerate))
            },
    {
        let ghost start = *fs_rng;
        proof {
            let (e1, s1) = start.squeeze_model(3);
            let (combs, s2) = combiners_model(batch_sizes@, s1);
            let (e2, s3) = s2.absorb_model(c1@).squeeze_model(1);
            let (e3, s4) = s3.absorb_model(c2@).squeeze_model(2);
            start.lemma_squeeze_len(3);
            s2.absorb_model(c1@).lemma_squeeze_len(1);
            s3.absorb_model(c2@).lemma_squeeze_len(2);
            s4.absorb_model(c3@).lemma_squeeze_len(1);
        }
        let (m1, st) = match Self::verifier_first_round(index_info, batch_sizes, fs_rng) {
            Ok(out) => out,
            Err(e) => return Err(e),
        };
        fs_rng.absorb_native_field_elements(c1);
        let (m2, st) = match Self::verifier_second_round(st, fs_rng) {
            Ok(out) => out,
            Err(e) => return Err(e),
        };
        fs_rng.absorb_native_field_elements(c2);
        let (m3, st) = match Self::verifier_third_round(st, fs_rng) {
            Ok(out) => out,
            Err(e) => return Err(e),
        };
        fs_rng.absorb_native_field_elements(c3);
        let st = match Self::verifier_fourth_round(st, fs_rng) {
            Ok(out) => out,
            Err(e) => return Err(e),
        };
        proof {
            let (ch, combs, end) = protocol_model(batch_sizes@, start, c1@, c2@, c3@);
            assert(ch =~= seq![
                m1.alpha,
                m1.eta_b,
                m1.eta_c,
                m2.beta,
                m3.r_b,
                m3.r_c,
                st.gamma->Some_0,
            ]);
        }
        Ok((m1, m2, m3, st))
    }
}

} // verus!

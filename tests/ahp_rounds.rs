use ahp_batch::ahp::{
    AHPError, AHPForR1CS, BatchSizes, CircuitInfo, PointLabel, PolynomialLabel, VerifierState,
};
use ahp_batch::field::Fp;
use ahp_batch::sponge::{AlgebraicSponge, DuplexSponge};

fn square_info(n: usize) -> CircuitInfo {
    CircuitInfo {
        num_public_inputs: 2,
        num_variables: n,
        num_constraints: n,
        num_non_zero_a: 10,
        num_non_zero_b: 12,
        num_non_zero_c: 9,
    }
}

fn batch(entries: Vec<(u64, usize)>) -> BatchSizes {
    BatchSizes::new(entries).unwrap()
}

fn first_round_state(seed: u64) -> VerifierState {
    let sizes = batch(vec![(3, 1)]);
    let mut fs = DuplexSponge::new(seed);
    AHPForR1CS::verifier_first_round(square_info(16), &sizes, &mut fs).unwrap().1
}

#[test]
fn batch_sizes_validation() {
    assert!(BatchSizes::new(vec![]).is_some());
    assert!(BatchSizes::new(vec![(1, 1), (2, 4)]).is_some());
    assert!(BatchSizes::new(vec![(2, 1), (1, 1)]).is_none());
    assert!(BatchSizes::new(vec![(1, 1), (1, 1)]).is_none());
    assert!(BatchSizes::new(vec![(1, 0)]).is_none());
    let b = batch(vec![(4, 2), (9, 1)]);
    assert_eq!(b.len(), 2);
    assert_eq!(b.get(1), (9, 1));
}

#[test]
fn first_round_rejects_non_square() {
    let mut info = square_info(16);
    info.num_variables = 17;
    let mut fs = DuplexSponge::new(1);
    let r = AHPForR1CS::verifier_first_round(info, &batch(vec![(1, 1)]), &mut fs);
    assert!(matches!(r, Err(AHPError::NonSquareMatrix)));
    // Nothing was drawn.
    let mut fresh = DuplexSponge::new(1);
    assert_eq!(fs.squeeze_nonnative_field_elements(1), fresh.squeeze_nonnative_field_elements(1));
}

#[test]
fn first_round_rejects_each_oversized_domain() {
    let too_big = (1usize << 27) + 1;
    let mut infos = Vec::new();
    infos.push(square_info(too_big));
    let mut a = square_info(16);
    a.num_non_zero_a = too_big;
    infos.push(a);
    let mut b = square_info(16);
    b.num_non_zero_b = too_big;
    infos.push(b);
    let mut c = square_info(16);
    c.num_non_zero_c = too_big;
    infos.push(c);
    let mut p = square_info(16);
    p.num_public_inputs = too_big;
    infos.push(p);
    for info in infos {
        let mut fs = DuplexSponge::new(1);
        let r = AHPForR1CS::verifier_first_round(info, &batch(vec![(1, 1)]), &mut fs);
        assert!(matches!(r, Err(AHPError::DomainTooLarge)));
    }
}

#[test]
fn first_round_draws_challenges_in_order() {
    let sizes = batch(vec![(1, 2), (5, 3)]);
    let mut fs = DuplexSponge::new(42);
    let (m, st) = AHPForR1CS::verifier_first_round(square_info(16), &sizes, &mut fs).unwrap();
    // alpha, eta_b, eta_c; one instance combiner for circuit 1; two instance
    // combiners and a circuit combiner for circuit 5.
    let mut reference = DuplexSponge::new(42);
    let drawn = reference.squeeze_nonnative_field_elements(7);
    assert_eq!((m.alpha, m.eta_b, m.eta_c), (drawn[0], drawn[1], drawn[2]));
    assert_eq!(m.batch_combiners.len(), 2);
    let (id0, c0) = &m.batch_combiners[0];
    assert_eq!(*id0, 1);
    assert_eq!(c0.circuit_combiner, Fp::one());
    assert_eq!(c0.instance_combiners, vec![Fp::one(), drawn[3]]);
    let (id1, c1) = &m.batch_combiners[1];
    assert_eq!(*id1, 5);
    assert_eq!(c1.instance_combiners, vec![Fp::one(), drawn[4], drawn[5]]);
    assert_eq!(c1.circuit_combiner, drawn[6]);
    // The transcript has advanced by exactly seven draws.
    assert_eq!(fs.squeeze_nonnative_field_elements(1), reference.squeeze_nonnative_field_elements(1));
    assert!(st.first_round_message.is_some());
    assert!(st.second_round_message.is_none());
    assert_eq!(st.constraint_domain.size(), 16);
    assert_eq!(st.non_zero_b_domain.size(), 16);
    assert_eq!(st.input_domain.size(), 2);
}

#[test]
fn only_the_first_circuit_combiner_is_identity() {
    let sizes = batch(vec![(2, 1), (3, 1), (8, 2)]);
    let mut fs = DuplexSponge::new(7);
    let (m, _) = AHPForR1CS::verifier_first_round(square_info(8), &sizes, &mut fs).unwrap();
    let identities = m
        .batch_combiners
        .iter()
        .filter(|(_, c)| c.circuit_combiner == Fp::one())
        .count();
    assert_eq!(identities, 1);
    assert_eq!(m.batch_combiners[0].1.circuit_combiner, Fp::one());
    for (_, c) in &m.batch_combiners {
        assert_eq!(c.instance_combiners[0], Fp::one());
    }
}

#[test]
fn later_rounds_draw_in_order() {
    let st = first_round_state(5);
    let mut fs = DuplexSponge::new(77);
    let mut reference = DuplexSponge::new(77);
    let drawn = reference.squeeze_nonnative_field_elements(4);
    let (m2, st) = AHPForR1CS::verifier_second_round(st, &mut fs).unwrap();
    assert_eq!(m2.beta, drawn[0]);
    let (m3, st) = AHPForR1CS::verifier_third_round(st, &mut fs).unwrap();
    assert_eq!((m3.r_b, m3.r_c), (drawn[1], drawn[2]));
    let st = AHPForR1CS::verifier_fourth_round(st, &mut fs).unwrap();
    assert_eq!(st.gamma, Some(drawn[3]));
    let (qs, _) = AHPForR1CS::verifier_query_set(st);
    assert_eq!(qs.queries.len(), 7);
    assert_eq!(qs.queries[0].polynomial, PolynomialLabel::G1);
    assert_eq!(qs.queries[0].point_label, PointLabel::Beta);
    assert_eq!(qs.queries[0].point, drawn[0]);
    assert_eq!(qs.queries[6].polynomial, PolynomialLabel::MatrixSumcheck);
    assert_eq!(qs.queries[6].point_label, PointLabel::Gamma);
    assert_eq!(qs.queries[6].point, drawn[3]);
}

#[test]
fn rounds_out_of_order_are_refused() {
    let st = first_round_state(5);
    let mut fs = DuplexSponge::new(3);
    assert!(matches!(
        AHPForR1CS::verifier_third_round(st, &mut fs),
        Err(AHPError::RoundOutOfOrder)
    ));
    let st = first_round_state(5);
    assert!(matches!(
        AHPForR1CS::verifier_fourth_round(st, &mut fs),
        Err(AHPError::RoundOutOfOrder)
    ));
    let st = first_round_state(5);
    let (_, st) = AHPForR1CS::verifier_second_round(st, &mut fs).unwrap();
    assert!(matches!(
        AHPForR1CS::verifier_second_round(st, &mut fs),
        Err(AHPError::RoundOutOfOrder)
    ));
    // A refused round draws nothing.
    let mut a = DuplexSponge::new(3);
    let mut b = DuplexSponge::new(3);
    let _ = a.squeeze_nonnative_field_elements(1);
    let _ = b.squeeze_nonnative_field_elements(1);
    let _ = AHPForR1CS::verifier_third_round(first_round_state(5), &mut a);
    assert_eq!(a.squeeze_nonnative_field_elements(1), b.squeeze_nonnative_field_elements(1));
}

fn run(seed: u64) -> (Vec<Fp>, DuplexSponge) {
    let sizes = batch(vec![(1, 3), (2, 2)]);
    let mut fs = DuplexSponge::new(seed);
    let c1 = vec![Fp::from_u64(11), Fp::from_u64(12)];
    let c2 = vec![Fp::from_u64(21)];
    let c3 = vec![Fp::from_u64(31), Fp::from_u64(32), Fp::from_u64(33)];
    let (m1, m2, m3, st) =
        AHPForR1CS::verifier_rounds(square_info(32), &sizes, &mut fs, &c1, &c2, &c3).unwrap();
    let mut all = vec![m1.alpha, m1.eta_b, m1.eta_c, m2.beta, m3.r_b, m3.r_c, st.gamma.unwrap()];
    for (_, c) in &m1.batch_combiners {
        all.push(c.circuit_combiner);
        all.extend(c.instance_combiners.iter().copied());
    }
    (all, fs)
}

#[test]
fn protocol_runs_are_deterministic() {
    let (a, mut fa) = run(123);
    let (b, mut fb) = run(123);
    assert_eq!(a, b);
    assert_eq!(fa.squeeze_nonnative_field_elements(2), fb.squeeze_nonnative_field_elements(2));
    let (c, _) = run(124);
    assert_ne!(a, c);
}

#[test]
fn protocol_absorbs_prover_messages_between_rounds() {
    let sizes = batch(vec![(1, 1)]);
    let mut fs = DuplexSponge::new(8);
    let c1 = vec![Fp::from_u64(1)];
    let c2 = vec![Fp::from_u64(2)];
    let c3 = vec![Fp::from_u64(3)];
    let (m1, m2, m3, st) =
        AHPForR1CS::verifier_rounds(square_info(4), &sizes, &mut fs, &c1, &c2, &c3).unwrap();
    let mut r = DuplexSponge::new(8);
    let e1 = r.squeeze_nonnative_field_elements(3);
    r.absorb_native_field_elements(&c1);
    let e2 = r.squeeze_nonnative_field_elements(1);
    r.absorb_native_field_elements(&c2);
    let e3 = r.squeeze_nonnative_field_elements(2);
    r.absorb_native_field_elements(&c3);
    let e4 = r.squeeze_nonnative_field_elements(1);
    assert_eq!(vec![m1.alpha, m1.eta_b, m1.eta_c], e1);
    assert_eq!(m2.beta, e2[0]);
    assert_eq!(vec![m3.r_b, m3.r_c], e3);
    assert_eq!(st.gamma, Some(e4[0]));
}

#[test]
fn protocol_rejects_non_square() {
    let mut info = square_info(4);
    info.num_constraints = 5;
    let mut fs = DuplexSponge::new(8);
    let r = AHPForR1CS::verifier_rounds(info, &batch(vec![(1, 1)]), &mut fs, &vec![], &vec![], &vec![]);
    assert!(matches!(r, Err(AHPError::NonSquareMatrix)));
}

fn pow_mod(x: u64, mut e: u64) -> u64 {
    let m = ahp_batch::field::MODULUS as u128;
    let mut base = x as u128 % m;
    let mut acc: u128 = 1;
    while e > 0 {
        if e & 1 == 1 {
            acc = acc * base % m;
        }
        base = base * base % m;
        e >>= 1;
    }
    acc as u64
}

/// A seed whose first squeeze is the identity: the seventh root of
/// `1 - ROUND_CONSTANT`.
fn seed_drawing_one() -> u64 {
    let m = ahp_batch::field::MODULUS;
    let target = (1 + m - ahp_batch::sponge::ROUND_CONSTANT) % m;
    // The inverse of 7 modulo m - 1.
    let order = (m - 1) as i128;
    let (mut a, mut b, mut x0, mut x1) = (7i128, order, 1i128, 0i128);
    while b != 0 {
        let q = a / b;
        (a, b) = (b, a - q * b);
        (x0, x1) = (x1, x0 - q * x1);
    }
    let d = x0.rem_euclid(order) as u64;
    pow_mod(target, d)
}

#[test]
fn degenerate_alpha_is_a_typed_failure() {
    let seed = seed_drawing_one();
    let mut probe = DuplexSponge::new(seed);
    assert_eq!(probe.squeeze_nonnative_field_elements(1)[0], Fp::one());
    let mut fs = DuplexSponge::new(seed);
    let r = AHPForR1CS::verifier_first_round(square_info(16), &batch(vec![(1, 1)]), &mut fs);
    assert!(matches!(r, Err(AHPError::ChallengeDegenerate)));
}

#[test]
fn degenerate_beta_is_a_typed_failure() {
    let st = first_round_state(5);
    let mut fs = DuplexSponge::new(seed_drawing_one());
    let r = AHPForR1CS::verifier_second_round(st, &mut fs);
    assert!(matches!(r, Err(AHPError::ChallengeDegenerate)));
}

use ahp_batch::field::Fp;
use ahp_batch::trace::{
    Assignment, Execution, Fee, InclusionAssignment, Input, InputID, Locator, Proof, ProvingKey,
    StateRoot, Trace, TraceError, Transition, TransitionTask, VerifierTask, VerifyingKey,
    WriteOnce,
};

fn transition(id: u64, program: &str, function: &str, inputs: Vec<Input>) -> Transition {
    Transition {
        id,
        program_id: program.to_string(),
        function_name: function.to_string(),
        inputs,
    }
}

fn assignment(values: &[u64]) -> Assignment {
    Assignment { values: values.iter().map(|v| Fp::from_u64(*v)).collect() }
}

fn inclusion(root: u64, values: &[u64]) -> InclusionAssignment {
    InclusionAssignment { global_state_root: StateRoot { value: root }, assignment: assignment(values) }
}

fn insert(trace: &mut Trace, t: Transition, key: u64, values: &[u64]) -> Result<(), TraceError> {
    trace.insert_transition(vec![InputID::Public(t.id)], t, (ProvingKey { id: key }, assignment(values)))
}

fn fee_trace() -> Trace {
    let mut trace = Trace::new();
    insert(&mut trace, transition(1, "credits.aleo", "fee", vec![Input::Record(5)]), 9, &[1]).unwrap();
    trace
}

fn verifier_task(program: &str, function: &str, key: u64) -> VerifierTask {
    VerifierTask {
        locator: Locator::new(program.to_string(), function.to_string()),
        verifying_key: VerifyingKey { id: key },
        inputs: vec![vec![Fp::from_u64(1)]],
    }
}

#[test]
fn write_once_cell_refuses_second_value() {
    let mut cell: WriteOnce<u64> = WriteOnce::Empty;
    assert!(!cell.is_set());
    assert_eq!(cell.set(3), Ok(()));
    assert_eq!(cell.set(4), Err(4));
    assert_eq!(cell.get(), Some(&3));
}

#[test]
fn fee_classification() {
    assert!(!Trace::new().is_fee());
    assert!(fee_trace().is_fee());
    let mut other = Trace::new();
    insert(&mut other, transition(1, "credits.aleo", "transfer", vec![]), 1, &[1]).unwrap();
    assert!(!other.is_fee());
    let mut two = fee_trace();
    insert(&mut two, transition(2, "credits.aleo", "fee", vec![]), 9, &[2]).unwrap();
    assert!(!two.is_fee());
}

#[test]
fn prepare_twice_is_refused() {
    let mut trace = Trace::new();
    insert(&mut trace, transition(1, "token.aleo", "mint", vec![]), 1, &[1]).unwrap();
    assert_eq!(trace.prepare((vec![], StateRoot { value: 7 })), Ok(()));
    assert_eq!(trace.prepare((vec![], StateRoot { value: 7 })), Err(TraceError::AlreadyPrepared));
    assert_eq!(
        trace.prepare((vec![inclusion(8, &[1])], StateRoot { value: 8 })),
        Err(TraceError::AlreadyPrepared)
    );
}

#[test]
fn insert_after_prepare_is_refused() {
    let mut trace = Trace::new();
    trace.prepare((vec![], StateRoot { value: 7 })).unwrap();
    let r = insert(&mut trace, transition(1, "token.aleo", "mint", vec![]), 1, &[1]);
    assert_eq!(r, Err(TraceError::AlreadyPrepared));
}

#[test]
fn prove_batch_refuses_mixed_roots() {
    let tasks: Vec<TransitionTask> = vec![];
    let r = Trace::prove_batch(
        tasks,
        &vec![inclusion(5, &[1]), inclusion(6, &[2])],
        StateRoot { value: 5 },
        ProvingKey { id: 100 },
    );
    assert!(matches!(r, Err(TraceError::GlobalStateRootMismatch)));
}

#[test]
fn prove_batch_refuses_zero_root_without_witnesses() {
    let r = Trace::prove_batch(vec![], &vec![], StateRoot { value: 0 }, ProvingKey { id: 100 });
    assert!(matches!(r, Err(TraceError::ZeroGlobalStateRoot)));
}

#[test]
fn prove_batch_adds_the_membership_task() {
    let (root, tasks) = Trace::prove_batch(
        vec![],
        &vec![inclusion(5, &[1]), inclusion(5, &[2, 3])],
        StateRoot { value: 5 },
        ProvingKey { id: 100 },
    )
    .unwrap();
    assert_eq!(root, StateRoot { value: 5 });
    assert_eq!(tasks.len(), 1);
    assert_eq!(tasks[0].locator.program_id, "inclusion.aleo");
    assert_eq!(tasks[0].locator.function_name, "state_path");
    assert_eq!(tasks[0].proving_key, ProvingKey { id: 100 });
    assert_eq!(tasks[0].assignments.len(), 2);
    assert_eq!(tasks[0].assignments[1].values, assignment(&[2, 3]).values);
}

#[test]
fn prove_execution_groups_witnesses_by_locator() {
    let mut trace = Trace::new();
    insert(&mut trace, transition(1, "token.aleo", "mint", vec![]), 1, &[1]).unwrap();
    insert(&mut trace, transition(2, "token.aleo", "burn", vec![]), 2, &[2]).unwrap();
    insert(&mut trace, transition(3, "token.aleo", "mint", vec![]), 3, &[3]).unwrap();
    assert_eq!(
        trace.prove_execution("token.aleo/mint", ProvingKey { id: 100 }).err(),
        Some(TraceError::InclusionAssignmentsNotSet)
    );
    trace.prepare((vec![], StateRoot { value: 7 })).unwrap();
    let request = trace.prove_execution("token.aleo/mint", ProvingKey { id: 100 }).unwrap();
    assert_eq!(request.label, "token.aleo/mint");
    assert_eq!(request.global_state_root, StateRoot { value: 7 });
    assert_eq!(request.tasks.len(), 2);
    assert_eq!(request.tasks[0].locator.function_name, "mint");
    // The first key of a locator is kept.
    assert_eq!(request.tasks[0].proving_key, ProvingKey { id: 1 });
    assert_eq!(request.tasks[0].assignments.len(), 2);
    assert_eq!(request.tasks[0].assignments[1].values, assignment(&[3]).values);
    assert_eq!(request.tasks[1].locator.function_name, "burn");
    let ids: Vec<u64> = request.transitions.iter().map(|t| t.id).collect();
    assert_eq!(ids, vec![1, 2, 3]);
}

#[test]
fn prove_execution_refuses_fee_and_zero_root() {
    let mut fee = fee_trace();
    fee.prepare((vec![inclusion(7, &[1])], StateRoot { value: 7 })).unwrap();
    assert_eq!(
        fee.prove_execution("credits.aleo/fee", ProvingKey { id: 100 }).err(),
        Some(TraceError::NotExecution)
    );
    let mut trace = Trace::new();
    insert(&mut trace, transition(1, "token.aleo", "mint", vec![]), 1, &[1]).unwrap();
    trace.prepare((vec![], StateRoot { value: 0 })).unwrap();
    assert_eq!(
        trace.prove_execution("token.aleo/mint", ProvingKey { id: 100 }).err(),
        Some(TraceError::ZeroGlobalStateRoot)
    );
}

#[test]
fn prove_fee_checks_its_shape() {
    let mut other = Trace::new();
    insert(&mut other, transition(1, "token.aleo", "mint", vec![]), 1, &[1]).unwrap();
    other.prepare((vec![], StateRoot { value: 7 })).unwrap();
    assert_eq!(other.prove_fee(ProvingKey { id: 100 }).err(), Some(TraceError::NotFee));

    let mut two = fee_trace();
    two.prepare((vec![inclusion(7, &[1]), inclusion(7, &[2])], StateRoot { value: 7 }))
        .unwrap();
    assert_eq!(two.prove_fee(ProvingKey { id: 100 }).err(), Some(TraceError::FeeInclusionCount));

    let mut fee = fee_trace();
    assert_eq!(
        fee.prove_fee(ProvingKey { id: 100 }).err(),
        Some(TraceError::InclusionAssignmentsNotSet)
    );
    fee.prepare((vec![inclusion(7, &[4])], StateRoot { value: 7 })).unwrap();
    let request = fee.prove_fee(ProvingKey { id: 100 }).unwrap();
    assert_eq!(request.label, "credits.aleo/fee");
    assert_eq!(request.tasks.len(), 2);
    assert_eq!(request.tasks[1].locator.program_id, "inclusion.aleo");
    let fee = request.into_fee(Proof { bytes: vec![1, 2] }).unwrap();
    assert_eq!(fee.transition.id, 1);
    assert_eq!(fee.global_state_root, StateRoot { value: 7 });
    assert_eq!(fee.proof.unwrap().bytes, vec![1, 2]);
}

#[test]
fn verify_execution_needs_a_proof() {
    let execution = Execution { transitions: vec![], global_state_root: StateRoot { value: 7 }, proof: None };
    let r = Trace::verify_execution_proof("a.aleo/f", vec![], &execution, vec![], VerifyingKey { id: 1 });
    assert_eq!(r.err(), Some(TraceError::MissingProof));
}

#[test]
fn verify_fee_checks_root_proof_and_record() {
    let fee = |root: u64, proof: Option<Proof>, inputs: Vec<Input>| Fee {
        transition: transition(1, "credits.aleo", "fee", inputs),
        global_state_root: StateRoot { value: root },
        proof,
    };
    let task = || verifier_task("credits.aleo", "fee", 3);
    let key = VerifyingKey { id: 100 };
    let zero = fee(0, Some(Proof { bytes: vec![1] }), vec![Input::Record(1)]);
    assert_eq!(Trace::verify_fee_proof(task(), &zero, vec![], key).err(), Some(TraceError::ZeroGlobalStateRoot));
    let missing = fee(7, None, vec![Input::Record(1)]);
    assert_eq!(Trace::verify_fee_proof(task(), &missing, vec![], key).err(), Some(TraceError::MissingProof));
    let none = fee(7, Some(Proof { bytes: vec![1] }), vec![Input::Public(1)]);
    assert_eq!(Trace::verify_fee_proof(task(), &none, vec![], key).err(), Some(TraceError::FeeInputRecord));
    let two = fee(7, Some(Proof { bytes: vec![1] }), vec![Input::Record(1), Input::Record(2)]);
    assert_eq!(Trace::verify_fee_proof(task(), &two, vec![], key).err(), Some(TraceError::FeeInputRecord));
    let good = fee(7, Some(Proof { bytes: vec![1, 2, 3] }), vec![Input::Record(1), Input::Public(2)]);
    let request = Trace::verify_fee_proof(task(), &good, vec![vec![Fp::from_u64(9)]], key).unwrap();
    assert_eq!(request.label, "credits.aleo/fee");
    assert_eq!(request.tasks.len(), 2);
    assert_eq!(request.tasks[1].locator.function_name, "state_path");
    assert_eq!(request.tasks[1].verifying_key, key);
    assert_eq!(request.proof.bytes, vec![1, 2, 3]);
}

#[test]
fn verdicts_follow_the_engine() {
    assert_eq!(Trace::execution_verdict(true), Ok(()));
    assert_eq!(Trace::execution_verdict(false), Err(TraceError::InvalidExecution));
    assert_eq!(Trace::fee_verdict(true), Ok(()));
    assert_eq!(Trace::fee_verdict(false), Err(TraceError::InvalidFee));
}

#[test]
fn execution_pipeline_from_insert_to_verify_request() {
    let mut trace = Trace::new();
    insert(&mut trace, transition(1, "token.aleo", "mint", vec![Input::Private(4)]), 1, &[5, 6]).unwrap();
    trace.prepare((vec![], StateRoot { value: 11 })).unwrap();
    let request = trace.prove_execution("token.aleo/mint", ProvingKey { id: 100 }).unwrap();
    assert_eq!(request.tasks.len(), 1);
    let execution = request.into_execution(Proof { bytes: vec![9, 9] });
    assert_eq!(execution.global_state_root, StateRoot { value: 11 });
    assert_eq!(execution.transitions.len(), 1);
    let verify = Trace::verify_execution_proof(
        "token.aleo/mint",
        vec![verifier_task("token.aleo", "mint", 1)],
        &execution,
        vec![],
        VerifyingKey { id: 100 },
    )
    .unwrap();
    assert_eq!(verify.label, "token.aleo/mint");
    assert_eq!(verify.tasks.len(), 1);
    assert_eq!(verify.proof.bytes, vec![9, 9]);
    assert_eq!(Trace::execution_verdict(true), Ok(()));
}

//! The batch trace: it gathers the transitions of one transaction, their
//! witnesses keyed by circuit, and the membership witnesses, and turns them
//! into one aggregate proving or verifying request.
use vstd::prelude::*;
use crate::field::{Fp, copy_scalars};

verus! {

/// A cell that can be written once.
pub enum WriteOnce<T> {
    Empty,
    Full(T),
}

impl<T> WriteOnce<T> {
    pub open spec fn spec_get(self) -> Option<T> {
        match self {
            WriteOnce::Empty => None,
            WriteOnce::Full(v) => Some(v),
        }
    }

    pub fn is_set(&self) -> (r: bool)
        ensures
            r == (*self is Full),
    {
        match self {
            WriteOnce::Empty => false,
            WriteOnce::Full(_) => true,
        }
    }

    /// Writes `value` into an unset cell; a set cell keeps its value and the
    /// new one is handed back.
    pub fn set(&mut self, value: T) -> (r: Result<(), T>)
        ensures
            *old(self) is Full ==> r == Err::<(), T>(value) && *final(self) == *old(self),
            *old(self) is Empty ==> r is Ok && *final(self) == WriteOnce::Full(value),
    {
        match self {
            WriteOnce::Full(_) => Err(value),
            WriteOnce::Empty => {
                *self = WriteOnce::Full(value);
                Ok(())
            },
        }
    }

    pub fn get(&self) -> (r: Option<&T>)
        ensures
            r matches Some(v) ==> self.spec_get() == Some(*v),
            r is None <==> self.spec_get() is None,
    {
        match self {
            WriteOnce::Empty => None,
            WriteOnce::Full(v) => Some(v),
        }
    }
}

#[derive(Clone, Copy, Debug, PartialEq, Eq, Structural)]
pub enum TraceError {
    /// The membership witnesses and global state root are already set.
    AlreadyPrepared,
    /// The membership witnesses have not been set.
    InclusionAssignmentsNotSet,
    /// The global state root has not been set.
    GlobalStateRootNotSet,
    /// An execution was asked of a fee trace.
    NotExecution,
    /// A fee was asked of a trace that is not one.
    NotFee,
    /// A fee needs exactly one membership witness.
    FeeInclusionCount,
    /// A fee needs exactly one transition.
    FeeTransitionCount,
    /// The global state root is the zero root.
    ZeroGlobalStateRoot,
    /// A membership witness was computed against another global state root.
    GlobalStateRootMismatch,
    /// The execution or fee carries no proof.
    MissingProof,
    /// A fee transition needs exactly one record input.
    FeeInputRecord,
    /// The aggregate proof of an execution did not verify.
    InvalidExecution,
    /// The aggregate proof of a fee did not verify.
    InvalidFee,
}

/// A commitment to the whole ledger state; the zero root stands for none.
#[derive(Clone, Copy, Debug, PartialEq, Eq, Structural)]
pub struct StateRoot {
    pub value: u64,
}

/// The handle of a proving key held by the key batch engine.
#[derive(Clone, Copy, Debug, PartialEq, Eq, Structural)]
pub struct ProvingKey {
    pub id: u64,
}

/// The handle of a verifying key held by the key batch engine.
#[derive(Clone, Copy, Debug, PartialEq, Eq, Structural)]
pub struct VerifyingKey {
    pub id: u64,
}

/// An input of a transition, with the identifier that commits to it.
#[derive(Clone, Copy, Debug, PartialEq, Eq, Structural)]
pub enum Input {
    Constant(u64),
    Public(u64),
    Private(u64),
    Record(u64),
    ExternalRecord(u64),
}

/// What the membership subsystem needs of an input.
#[derive(Clone, Copy, Debug, PartialEq, Eq, Structural)]
pub enum InputID {
    Constant(u64),
    Public(u64),
    Private(u64),
    Record(u64, u64),
    ExternalRecord(u64),
}

/// A circuit: a program and one of its functions.
pub struct Locator {
    pub program_id: String,
    pub function_name: String,
}

impl View for Locator {
    type V = (Seq<char>, Seq<char>);

    open spec fn view(&self) -> (Seq<char>, Seq<char>) {
        (self.program_id@, self.function_name@)
    }
}

impl Locator {
    pub fn new(program_id: String, function_name: String) -> (r: Locator)
        ensures
            r.program_id == program_id,
            r.function_name == function_name,
    {
        Locator { program_id, function_name }
    }
}

/// A witness for one circuit instance.
pub struct Assignment {
    pub values: Vec<Fp>,
}

impl View for Assignment {
    type V = Seq<Fp>;

    open spec fn view(&self) -> Seq<Fp> {
        self.values@
    }
}

impl Assignment {
    pub fn copy(&self) -> (r: Assignment)
        ensures
            r@ == self@,
    {
        Assignment { values: copy_scalars(&self.values) }
    }
}

/// One witnessed call of a circuit.
pub struct Transition {
    pub id: u64,
    pub program_id: String,
    pub function_name: String,
    pub inputs: Vec<Input>,
}

impl View for Transition {
    type V = (u64, Seq<char>, Seq<char>, Seq<Input>);

    open spec fn view(&self) -> (u64, Seq<char>, Seq<char>, Seq<Input>) {
        (self.id, self.program_id@, self.function_name@, self.inputs@)
    }
}

impl Transition {
    pub fn copy(&self) -> (r: Transition)
        ensures
            r@ == self@,
    {
        let mut inputs: Vec<Input> = Vec::new();
        let mut i: usize = 0;
        while i < self.inputs.len()
            invariant
                0 <= i <= self.inputs@.len(),
                inputs@ == self.inputs@.take(i as int),
            decreases self.inputs@.len() - i,
        {
            inputs.push(self.inputs[i]);
            proof {
                assert(inputs@ =~= self.inputs@.take(i + 1));
            }
            i = i + 1;
        }
        proof {
            assert(inputs@ =~= self.inputs@);
        }
        Transition {
            id: self.id,
            program_id: self.program_id.clone(),
            function_name: self.function_name.clone(),
            inputs,
        }
    }
}

/// A membership witness, with the global state root it was computed against.
pub struct InclusionAssignment {
    pub global_state_root: StateRoot,
    pub assignment: Assignment,
}

impl View for InclusionAssignment {
    type V = (StateRoot, Seq<Fp>);

    open spec fn view(&self) -> (StateRoot, Seq<Fp>) {
        (self.global_state_root, self.assignment@)
    }
}

/// The views of the elements of `s`.
pub open spec fn seq_view<T: View>(s: Seq<T>) -> Seq<T::V> {
    Seq::new(s.len(), |i: int| s[i]@)
}

/// The proving key of one circuit and the witnesses of its instances.
pub struct TransitionTask {
    pub locator: Locator,
    pub proving_key: ProvingKey,
    pub assignments: Vec<Assignment>,
}

/// A task seen as its locator, key and witnesses.
pub type TaskView = (Seq<char>, Seq<char>, ProvingKey, Seq<Seq<Fp>>);

impl View for TransitionTask {
    type V = TaskView;

    open spec fn view(&self) -> TaskView {
        (
            self.locator.program_id@,
            self.locator.function_name@,
            self.proving_key,
            seq_view(self.assignments@),
        )
    }
}

pub open spec fn tasks_view(v: Seq<TransitionTask>) -> Seq<TaskView> {
    seq_view(v)
}

fn copy_assignments(v: &Vec<Assignment>) -> (r: Vec<Assignment>)
    ensures
        seq_view(r@) == seq_view(v@),
{
    let mut r: Vec<Assignment> = Vec::new();
    let mut i: usize = 0;
    while i < v.len()
        invariant
            0 <= i <= v@.len(),
            r@.len() == i,
            seq_view(r@) == seq_view(v@.take(i as int)),
        decreases v@.len() - i,
    {
        let ghost prev = r@;
        r.push(v[i].copy());
        proof {
            let a = seq_view(r@);
            let b = seq_view(v@.take(i + 1));
            assert forall|k: int| 0 <= k < i + 1 implies a[k] == b[k] by {
                if k < i {
                    assert(r@[k] == prev[k]);
                    assert(seq_view(prev)[k] == seq_view(v@.take(i as int))[k]);
                }
            }
            assert(a =~= b);
        }
        i = i + 1;
    }
    proof {
        assert(v@.take(i as int) =~= v@);
    }
    r
}

fn copy_tasks(v: &Vec<TransitionTask>) -> (r: Vec<TransitionTask>)
    ensures
        tasks_view(r@) == tasks_view(v@),
{
    let mut r: Vec<TransitionTask> = Vec::new();
    let mut i: usize = 0;
    while i < v.len()
        invariant
            0 <= i <= v@.len(),
            r@.len() == i,
            tasks_view(r@) == tasks_view(v@.take(i as int)),
        decreases v@.len() - i,
    {
        let ghost prev = r@;
        let task = &v[i];
        let locator = Locator::new(
            task.locator.program_id.clone(),
            task.locator.function_name.clone(),
        );
        r.push(
            TransitionTask {
                locator,
                proving_key: task.proving_key,
                assignments: copy_assignments(&task.assignments),
            },
        );
        proof {
            let a = tasks_view(r@);
            let b = tasks_view(v@.take(i + 1));
            assert forall|k: int| 0 <= k < i + 1 implies a[k] == b[k] by {
                if k < i {
                    assert(r@[k] == prev[k]);
                    assert(tasks_view(prev)[k] == tasks_view(v@.take(i as int))[k]);
                }
            }
            assert(a =~= b);
        }
        i = i + 1;
    }
    proof {
        assert(v@.take(i as int) =~= v@);
    }
    r
}

fn copy_transitions(v: &Vec<Transition>) -> (r: Vec<Transition>)
    ensures
        seq_view(r@) == seq_view(v@),
{
    let mut r: Vec<Transition> = Vec::new();
    let mut i: usize = 0;
    while i < v.len()
        invariant
            0 <= i <= v@.len(),
            r@.len() == i,
            seq_view(r@) == seq_view(v@.take(i as int)),
        decreases v@.len() - i,
    {
        let ghost prev = r@;
        r.push(v[i].copy());
        proof {
            let a = seq_view(r@);
            let b = seq_view(v@.take(i + 1));
            assert forall|k: int| 0 <= k < i + 1 implies a[k] == b[k] by {
                if k < i {
                    assert(r@[k] == prev[k]);
                    assert(seq_view(prev)[k] == seq_view(v@.take(i as int))[k]);
                }
            }
            assert(a =~= b);
        }
        i = i + 1;
    }
    proof {
        assert(v@.take(i as int) =~= v@);
    }
    r
}

/// No two tasks share a locator.
pub open spec fn unique_locators(tasks: Seq<TaskView>) -> bool {
    forall|i: int, j: int|
        0 <= i < j < tasks.len() ==> !((#[trigger] tasks[i]).0 == (#[trigger] tasks[j]).0
            && tasks[i].1 == tasks[j].1)
}

/// The tasks once `a` is added under the locator `(program, function)`: to
/// the task of that locator if there is one, which keeps its key, else to a
/// new task at the end that takes the key `pk`.
pub open spec fn tasks_with(
    tasks: Seq<TaskView>,
    program: Seq<char>,
    function: Seq<char>,
    pk: ProvingKey,
    a: Seq<Fp>,
) -> Seq<TaskView> {
    if exists|i: int| 0 <= i < tasks.len() && tasks[i].0 == program && tasks[i].1 == function {
        let i = choose|i: int| 0 <= i < tasks.len() && tasks[i].0 == program && tasks[i].1 == function;
        tasks.update(i, (tasks[i].0, tasks[i].1, tasks[i].2, tasks[i].3.push(a)))
    } else {
        tasks.push((program, function, pk, seq![a]))
    }
}

/// The program of the fee circuit.
pub open spec fn fee_program() -> Seq<char> {
    "credits.aleo"@
}

/// The function of the fee circuit.
pub open spec fn fee_function() -> Seq<char> {
    "fee"@
}

/// A trace is a fee trace when it holds exactly one transition, and that
/// transition calls the fee circuit.
pub open spec fn is_fee_trace(transitions: Seq<(u64, Seq<char>, Seq<char>, Seq<Input>)>) -> bool {
    transitions.len() == 1 && transitions[0].1 == fee_program() && transitions[0].2 == fee_function()
}

/// The program of the state-path membership circuit.
pub open spec fn inclusion_program() -> Seq<char> {
    "inclusion.aleo"@
}

/// The function of the state-path membership circuit.
pub open spec fn inclusion_function() -> Seq<char> {
    "state_path"@
}

/// The label under which a fee is proved and verified.
pub open spec fn fee_label() -> Seq<char> {
    "credits.aleo/fee"@
}

/// Why a batch with these membership witnesses and this global state root
/// cannot be proved, if it cannot: the zero root is never accepted, even
/// without membership witnesses, and every witness must carry the root.
pub open spec fn batch_refusal(assignments: Seq<(StateRoot, Seq<Fp>)>, root: StateRoot) -> Option<
    TraceError,
> {
    if root.value == 0 {
        Some(TraceError::ZeroGlobalStateRoot)
    } else if exists|i: int| 0 <= i < assignments.len() && assignments[i].0 != root {
        Some(TraceError::GlobalStateRootMismatch)
    } else {
        None
    }
}

/// The tasks for the key batch engine: the circuits' own, then, where there
/// are membership witnesses, one task of the membership circuit with all of them.
pub open spec fn batch_tasks(
    tasks: Seq<TaskView>,
    assignments: Seq<(StateRoot, Seq<Fp>)>,
    key: ProvingKey,
) -> Seq<TaskView> {
    if assignments.len() == 0 {
        tasks
    } else {
        tasks.push(
            (
                inclusion_program(),
                inclusion_function(),
                key,
                Seq::new(assignments.len(), |i: int| assignments[i].1),
            ),
        )
    }
}

/// An aggregate proof from the key batch engine.
pub struct Proof {
    pub bytes: Vec<u8>,
}

impl View for Proof {
    type V = Seq<u8>;

    open spec fn view(&self) -> Seq<u8> {
        self.bytes@
    }
}

impl Proof {
    pub fn copy(&self) -> (r: Proof)
        ensures
            r@ == self@,
    {
        let mut bytes: Vec<u8> = Vec::new();
        let mut i: usize = 0;
        while i < self.bytes.len()
            invariant
                0 <= i <= self.bytes@.len(),
                bytes@ == self.bytes@.take(i as int),
            decreases self.bytes@.len() - i,
        {
            bytes.push(self.bytes[i]);
            proof {
                assert(bytes@ =~= self.bytes@.take(i + 1));
            }
            i = i + 1;
        }
        proof {
            assert(bytes@ =~= self.bytes@);
        }
        Proof { bytes }
    }
}

/// What the key batch engine is asked to prove: every task under one label,
/// with the transitions and root that the proof will travel with.
pub struct ProvingRequest {
    pub label: String,
    pub tasks: Vec<TransitionTask>,
    pub global_state_root: StateRoot,
    pub transitions: Vec<Transition>,
}

impl View for ProvingRequest {
    type V = (Seq<char>, Seq<TaskView>, StateRoot, Seq<(u64, Seq<char>, Seq<char>, Seq<Input>)>);

    open spec fn view(&self) -> Self::V {
        (
            self.label@,
            tasks_view(self.tasks@),
            self.global_state_root,
            seq_view(self.transitions@),
        )
    }
}

/// The transitions of a transaction, with the root and the proof.
pub struct Execution {
    pub transitions: Vec<Transition>,
    pub global_state_root: StateRoot,
    pub proof: Option<Proof>,
}

/// The fee transition of a transaction, with the root and the proof.
pub struct Fee {
    pub transition: Transition,
    pub global_state_root: StateRoot,
    pub proof: Option<Proof>,
}

impl ProvingRequest {
    /// The execution that carries the proof the engine returned for this request.
    pub fn into_execution(self, proof: Proof) -> (r: Execution)
        ensures
            seq_view(r.transitions@) == self@.3,
            r.global_state_root == self.global_state_root,
            r.proof matches Some(p) && p@ == proof@,
    {
        Execution {
            transitions: self.transitions,
            global_state_root: self.global_state_root,
            proof: Some(proof),
        }
    }

    /// The fee that carries the proof the engine returned for this request;
    /// refused unless the request holds exactly one transition.
    pub fn into_fee(self, proof: Proof) -> (r: Result<Fee, TraceError>)
        ensures
            self@.3.len() != 1 ==> r == Err::<Fee, TraceError>(TraceError::FeeTransitionCount),
            self@.3.len() == 1 ==> (r matches Ok(f) && f.transition@ == self@.3[0]
                && f.global_state_root == self.global_state_root && (f.proof matches Some(p)
                && p@ == proof@)),
    {
        let mut transitions = self.transitions;
        if transitions.len() != 1 {
            return Err(TraceError::FeeTransitionCount);
        }
        let transition = transitions.remove(0);
        Ok(Fee { transition, global_state_root: self.global_state_root, proof: Some(proof) })
    }
}

/// The verifying key of one circuit and the public inputs of its instances.
pub struct VerifierTask {
    pub locator: Locator,
    pub verifying_key: VerifyingKey,
    pub inputs: Vec<Vec<Fp>>,
}

/// A verifier task seen as its locator, key and public inputs.
pub type VerifierTaskView = (Seq<char>, Seq<char>, VerifyingKey, Seq<Seq<Fp>>);

impl View for VerifierTask {
    type V = VerifierTaskView;

    open spec fn view(&self) -> VerifierTaskView {
        (
            self.locator.program_id@,
            self.locator.function_name@,
            self.verifying_key,
            seq_view(self.inputs@),
        )
    }
}

/// The verifier tasks for the key batch engine: the circuits' own, then,
/// where there are membership inputs, one task of the membership circuit.
pub open spec fn verifier_tasks(
    tasks: Seq<VerifierTaskView>,
    inclusion_inputs: Seq<Seq<Fp>>,
    key: VerifyingKey,
) -> Seq<VerifierTaskView> {
    if inclusion_inputs.len() == 0 {
        tasks
    } else {
        tasks.push((inclusion_program(), inclusion_function(), key, inclusion_inputs))
    }
}

/// What the key batch engine is asked to verify.
pub struct VerifyingRequest {
    pub label: String,
    pub tasks: Vec<VerifierTask>,
    pub proof: Proof,
}

impl View for VerifyingRequest {
    type V = (Seq<char>, Seq<VerifierTaskView>, Seq<u8>);

    open spec fn view(&self) -> Self::V {
        (self.label@, seq_view(self.tasks@), self.proof@)
    }
}

/// How many of the inputs are records.
pub open spec fn record_count(inputs: Seq<Input>) -> nat
    decreases inputs.len(),
{
    if inputs.len() == 0 {
        0
    } else {
        record_count(inputs.drop_last()) + if inputs.last() is Record {
            1nat
        } else {
            0nat
        }
    }
}

/// What a trace holds.
pub ghost struct TraceView {
    pub transitions: Seq<(u64, Seq<char>, Seq<char>, Seq<Input>)>,
    pub tasks: Seq<TaskView>,
    pub inclusion_tasks: Seq<(Seq<InputID>, u64)>,
    pub inclusion_assignments: Option<Seq<(StateRoot, Seq<Fp>)>>,
    pub global_state_root: Option<StateRoot>,
}

impl TraceView {
    /// Neither write-once cell is set.
    pub open spec fn is_unprepared(self) -> bool {
        self.inclusion_assignments is None && self.global_state_root is None
    }

    /// The trace after `prepare` with these membership witnesses and root, or
    /// `None` where it refuses.
    pub open spec fn prepared(self, assignments: Seq<(StateRoot, Seq<Fp>)>, root: StateRoot) -> Option<
        TraceView,
    > {
        if self.is_unprepared() {
            Some(
                TraceView {
                    inclusion_assignments: Some(assignments),
                    global_state_root: Some(root),
                    ..self
                },
            )
        } else {
            None
        }
    }
}

/// What proving a prepared trace under `label` yields: the refusal of its
/// root and membership witnesses, or the request that carries all its tasks,
/// the membership task, its root and its transitions.
pub open spec fn proving_outcome(
    view: TraceView,
    label: Seq<char>,
    key: ProvingKey,
    r: Result<ProvingRequest, TraceError>,
) -> bool {
    let a = view.inclusion_assignments->Some_0;
    let root = view.global_state_root->Some_0;
    match batch_refusal(a, root) {
        Some(e) => r == Err::<ProvingRequest, TraceError>(e),
        None => r matches Ok(req) && req@ == (label, batch_tasks(view.tasks, a, key), root, view.transitions),
    }
}

fn count_records(inputs: &Vec<Input>) -> (r: usize)
    ensures
        r == record_count(inputs@),
{
    let mut count: usize = 0;
    let mut i: usize = 0;
    while i < inputs.len()
        invariant
            0 <= i <= inputs@.len(),
            count <= i,
            count == record_count(inputs@.take(i as int)),
        decreases inputs@.len() - i,
    {
        proof {
            assert(inputs@.take(i + 1).drop_last() =~= inputs@.take(i as int));
        }
        match inputs[i] {
            Input::Record(_) => {
                count = count + 1;
            },
            _ => {},
        }
        i = i + 1;
    }
    proof {
        assert(inputs@.take(i as int) =~= inputs@);
    }
    count
}

/// The request that verifies `proof` under `label`, with the membership
/// task added where there are membership inputs.
fn verify_batch(
    label: &str,
    verifier_inputs: Vec<VerifierTask>,
    inclusion_inputs: Vec<Vec<Fp>>,
    inclusion_verifying_key: VerifyingKey,
    proof: &Proof,
) -> (r: VerifyingRequest)
    ensures
        r@ == (
            label@,
            verifier_tasks(
                seq_view(verifier_inputs@),
                seq_view(inclusion_inputs@),
                inclusion_verifying_key,
            ),
            proof@,
        ),
{
    let mut tasks = verifier_inputs;
    let ghost before = seq_view(tasks@);
    if inclusion_inputs.len() > 0 {
        let locator = Locator::new("inclusion.aleo".to_owned(), "state_path".to_owned());
        tasks.push(
            VerifierTask {
                locator,
                verifying_key: inclusion_verifying_key,
                inputs: inclusion_inputs,
            },
        );
    }
    proof {
        assert(seq_view(tasks@) =~= verifier_tasks(
            before,
            seq_view(inclusion_inputs@),
            inclusion_verifying_key,
        ));
    }
    VerifyingRequest { label: label.to_owned(), tasks, proof: proof.copy() }
}

/// Once a trace is prepared, preparing it again is refused, whatever the
/// membership witnesses and root offered the second time.
pub proof fn lemma_prepare_once(
    t: TraceView,
    a1: Seq<(StateRoot, Seq<Fp>)>,
    r1: StateRoot,
    a2: Seq<(StateRoot, Seq<Fp>)>,
    r2: StateRoot,
)
    ensures
        t.prepared(a1, r1) matches Some(t2) ==> t2.prepared(a2, r2) is None,
{
}

/// A trace with no transition, or with two or more, is never a fee trace;
/// one whose single transition calls `credits.aleo/fee` always is.
pub proof fn lemma_fee_classification(transitions: Seq<(u64, Seq<char>, Seq<char>, Seq<Input>)>)
    ensures
        transitions.len() != 1 ==> !is_fee_trace(transitions),
        transitions.len() == 1 && transitions[0].1 == "credits.aleo"@ && transitions[0].2 == "fee"@
            ==> is_fee_trace(transitions),
{
}

/// Membership witnesses computed against two different roots are refused,
/// so no proving request is made: for a root other than zero, as a mismatch.
pub proof fn lemma_mixed_roots_refused(
    assignments: Seq<(StateRoot, Seq<Fp>)>,
    root: StateRoot,
    i: int,
    j: int,
)
    requires
        0 <= i < assignments.len(),
        0 <= j < assignments.len(),
        assignments[i].0 != assignments[j].0,
    ensures
        batch_refusal(assignments, root) is Some,
        root.value != 0 ==> batch_refusal(assignments, root) == Some(
            TraceError::GlobalStateRootMismatch,
        ),
{
    if assignments[i].0 != root {
        assert(exists|k: int| 0 <= k < assignments.len() && assignments[k].0 != root);
    } else {
        assert(assignments[j].0 != root);
        assert(exists|k: int| 0 <= k < assignments.len() && assignments[k].0 != root);
    }
}

/// The zero root is refused, with or without membership witnesses.
pub proof fn lemma_zero_root_refused(assignments: Seq<(StateRoot, Seq<Fp>)>, root: StateRoot)
    requires
        root.value == 0,
    ensures
        batch_refusal(assignments, root) == Some(TraceError::ZeroGlobalStateRoot),
{
}

/// The transitions of one transaction with everything needed to prove them.
pub struct Trace {
    transitions: Vec<Transition>,
    transition_tasks: Vec<TransitionTask>,
    inclusion_tasks: Vec<(Vec<InputID>, u64)>,
    inclusion_assignments: WriteOnce<Vec<InclusionAssignment>>,
    global_state_root: WriteOnce<StateRoot>,
}

impl View for Trace {
    type V = TraceView;

    closed spec fn view(&self) -> TraceView {
        TraceView {
            transitions: seq_view(self.transitions@),
            tasks: tasks_view(self.transition_tasks@),
            inclusion_tasks: Seq::new(
                self.inclusion_tasks@.len(),
                |i: int| (self.inclusion_tasks@[i].0@, self.inclusion_tasks@[i].1),
            ),
            inclusion_assignments: match self.inclusion_assignments {
                WriteOnce::Empty => None,
                WriteOnce::Full(v) => Some(seq_view(v@)),
            },
            global_state_root: self.global_state_root.spec_get(),
        }
    }
}

impl Trace {
    /// Tasks have distinct locators, and the two cells are set together.
    pub open spec fn wf(&self) -> bool {
        &&& unique_locators(self@.tasks)
        &&& (self@.inclusion_assignments is None <==> self@.global_state_root is None)
    }

    pub fn new() -> (r: Trace)
        ensures
            r.wf(),
            r@.transitions.len() == 0,
            r@.tasks.len() == 0,
            r@.inclusion_tasks.len() == 0,
            r@.is_unprepared(),
    {
        let r = Trace {
            transitions: Vec::new(),
            transition_tasks: Vec::new(),
            inclusion_tasks: Vec::new(),
            inclusion_assignments: WriteOnce::Empty,
            global_state_root: WriteOnce::Empty,
        };
        proof {
            assert(tasks_view(r.transition_tasks@) =~= Seq::<TaskView>::empty());
        }
        r
    }

    /// Adds a transition, its input identifiers for the membership witnesses,
    /// and its witness under its locator; refused once the trace is prepared.
    pub fn insert_transition(
        &mut self,
        input_ids: Vec<InputID>,
        transition: Transition,
        task: (ProvingKey, Assignment),
    ) -> (r: Result<(), TraceError>)
        requires
            old(self).wf(),
        ensures
            final(self).wf(),
            !old(self)@.is_unprepared() ==> r == Err::<(), TraceError>(TraceError::AlreadyPrepared)
                && final(self)@ == old(self)@,
            old(self)@.is_unprepared() ==> r is Ok && final(self)@ == (TraceView {
                transitions: old(self)@.transitions.push(transition@),
                tasks: tasks_with(
                    old(self)@.tasks,
                    transition.program_id@,
                    transition.function_name@,
                    task.0,
                    task.1@,
                ),
                inclusion_tasks: old(self)@.inclusion_tasks.push((input_ids@, transition.id)),
                ..old(self)@
            }),
    {
        if self.inclusion_assignments.is_set() || self.global_state_root.is_set() {
            return Err(TraceError::AlreadyPrepared);
        }
        let ghost tasks0 = self@.tasks;
        let ghost incl0 = self@.inclusion_tasks;
        let ghost trans0 = self@.transitions;
        let ghost tv = transition@;
        let (proving_key, assignment) = task;
        let n = self.transition_tasks.len();
        let mut i: usize = 0;
        let mut found = false;
        while i < n
            invariant
                n == self.transition_tasks@.len(),
                0 <= i <= n,
                tasks_view(self.transition_tasks@) == tasks0,
                forall|j: int|
                    0 <= j < i ==> !((#[trigger] tasks0[j]).0 == transition.program_id@
                        && tasks0[j].1 == transition.function_name@),
                found ==> i < n && tasks0[i as int].0 == transition.program_id@ && tasks0[i as int].1
                    == transition.function_name@,
            ensures
                found || i == n,
            decreases n - i + if found {
                0int
            } else {
                1int
            },
        {
            if self.transition_tasks[i].locator.program_id == transition.program_id
                && self.transition_tasks[i].locator.function_name == transition.function_name {
                proof {
                    assert(tasks0[i as int] == self.transition_tasks@[i as int]@);
                }
                found = true;
                break;
            }
            proof {
                assert(tasks0[i as int] == self.transition_tasks@[i as int]@);
            }
            i = i + 1;
        }
        let ghost expected = tasks_with(
            tasks0,
            transition.program_id@,
            transition.function_name@,
            proving_key,
            assignment@,
        );
        if found {
            let ghost prev = self.transition_tasks@;
            let mut entry = self.transition_tasks.remove(i);
            let ghost old_entry = entry;
            let ghost av = assignment@;
            entry.assignments.push(assignment);
            proof {
                assert(seq_view(entry.assignments@) =~= seq_view(old_entry.assignments@).push(av));
            }
            self.transition_tasks.insert(i, entry);
            proof {
                assert(self.transition_tasks@ =~= prev.update(i as int, entry));
                assert(old_entry == prev[i as int]);
                let k = choose|k: int|
                    0 <= k < tasks0.len() && tasks0[k].0 == transition.program_id@ && tasks0[k].1
                        == transition.function_name@;
                assert(k == i) by {
                    if k != i {
                        if k < i {
                            assert(!(tasks0[k].0 == transition.program_id@ && tasks0[k].1
                                == transition.function_name@));
                        } else {
                            assert(!(tasks0[i as int].0 == tasks0[k].0 && tasks0[i as int].1
                                == tasks0[k].1));
                        }
                    }
                }
                assert(tasks_view(self.transition_tasks@) =~= expected);
            }
        } else {
            let locator = Locator::new(transition.program_id.clone(), transition.function_name.clone());
            let mut assignments: Vec<Assignment> = Vec::new();
            assignments.push(assignment);
            let ghost prev = self.transition_tasks@;
            self.transition_tasks.push(TransitionTask { locator, proving_key, assignments });
            proof {
                assert(!exists|k: int|
                    0 <= k < tasks0.len() && tasks0[k].0 == transition.program_id@ && tasks0[k].1
                        == transition.function_name@) by {
                    assert forall|k: int| 0 <= k < tasks0.len() implies !(tasks0[k].0
                        == transition.program_id@ && tasks0[k].1 == transition.function_name@) by {
                        assert(!(tasks0[k].0 == transition.program_id@ && tasks0[k].1
                            == transition.function_name@));
                    }
                }
                assert(seq_view(assignments@) =~= seq![assignment@]);
                let a = tasks_view(self.transition_tasks@);
                assert forall|k: int| 0 <= k < a.len() implies a[k] == expected[k] by {
                    if k < n {
                        assert(self.transition_tasks@[k] == prev[k]);
                        assert(tasks0[k] == prev[k]@);
                    }
                }
                assert(tasks_view(self.transition_tasks@) =~= expected);
            }
        }
        let id = transition.id;
        self.inclusion_tasks.push((input_ids, id));
        self.transitions.push(transition);
        proof {
            assert(self@.inclusion_tasks =~= incl0.push((input_ids@, id)));
            assert(self@.transitions =~= trans0.push(tv));
            let t = self@.tasks;
            assert forall|a: int, b: int| 0 <= a < b < t.len() implies !((#[trigger] t[a]).0 == (
            #[trigger] t[b]).0 && t[a].1 == t[b].1) by {
                if b < tasks0.len() {
                    assert(t[a].0 == tasks0[a].0 && t[a].1 == tasks0[a].1);
                    assert(t[b].0 == tasks0[b].0 && t[b].1 == tasks0[b].1);
                }
            }
        }
        Ok(())
    }

    /// The transitions, in the order they were inserted.
    pub fn transitions(&self) -> (r: &Vec<Transition>)
        ensures
            seq_view(r@) == self@.transitions,
    {
        &self.transitions
    }

    /// Each transition's input identifiers and transition identifier, for the
    /// membership subsystem.
    pub fn inclusion_tasks(&self) -> (r: &Vec<(Vec<InputID>, u64)>)
        ensures
            r@.len() == self@.inclusion_tasks.len(),
            forall|i: int|
                0 <= i < r@.len() ==> ((#[trigger] r@[i]).0@, r@[i].1) == self@.inclusion_tasks[i],
    {
        &self.inclusion_tasks
    }

    /// Whether this is a fee trace: one transition, to the fee circuit.
    pub fn is_fee(&self) -> (r: bool)
        ensures
            r == is_fee_trace(self@.transitions),
    {
        if self.transitions.len() == 1 {
            let program = "credits.aleo".to_owned();
            let function = "fee".to_owned();
            self.transitions[0].program_id == program && self.transitions[0].function_name
                == function
        } else {
            false
        }
    }

    /// Stores the membership witnesses and the global state root that the
    /// membership subsystem computed for this trace; refused once they are set.
    pub fn prepare(&mut self, prepared: (Vec<InclusionAssignment>, StateRoot)) -> (r: Result<
        (),
        TraceError,
    >)
        requires
            old(self).wf(),
        ensures
            final(self).wf(),
            old(self)@.prepared(seq_view(prepared.0@), prepared.1) matches Some(v) ==> (r is Ok && final(self)@
                == v),
            old(self)@.prepared(seq_view(prepared.0@), prepared.1) is None ==> r == Err::<(), TraceError>(
                TraceError::AlreadyPrepared,
            ) && final(self)@ == old(self)@,
    {
        let (inclusion_assignments, global_state_root) = prepared;
        if self.inclusion_assignments.is_set() || self.global_state_root.is_set() {
            return Err(TraceError::AlreadyPrepared);
        }
        let ghost before = self@;
        match self.inclusion_assignments.set(inclusion_assignments) {
            Ok(()) => {},
            Err(_) => return Err(TraceError::AlreadyPrepared),
        }
        match self.global_state_root.set(global_state_root) {
            Ok(()) => {},
            Err(_) => return Err(TraceError::AlreadyPrepared),
        }
        proof {
            assert(self@ =~= before.prepared(seq_view(prepared.0@), prepared.1)->Some_0);
        }
        Ok(())
    }

    /// Checks the global state root and the membership witnesses, and adds
    /// the membership task to the circuits' tasks.
    pub fn prove_batch(
        proving_tasks: Vec<TransitionTask>,
        inclusion_assignments: &Vec<InclusionAssignment>,
        global_state_root: StateRoot,
        inclusion_proving_key: ProvingKey,
    ) -> (r: Result<(StateRoot, Vec<TransitionTask>), TraceError>)
        ensures
            batch_refusal(seq_view(inclusion_assignments@), global_state_root) matches Some(e) ==> r
                == Err::<(StateRoot, Vec<TransitionTask>), TraceError>(e),
            batch_refusal(seq_view(inclusion_assignments@), global_state_root) is None ==> (r matches Ok(
                (root, tasks),
            ) && root == global_state_root && tasks_view(tasks@) == batch_tasks(
                tasks_view(proving_tasks@),
                seq_view(inclusion_assignments@),
                inclusion_proving_key,
            )),
    {
        let ghost a = seq_view(inclusion_assignments@);
        if global_state_root.value == 0 {
            return Err(TraceError::ZeroGlobalStateRoot);
        }
        let mut batch_inclusions: Vec<Assignment> = Vec::new();
        let mut i: usize = 0;
        while i < inclusion_assignments.len()
            invariant
                0 <= i <= inclusion_assignments@.len(),
                a == seq_view(inclusion_assignments@),
                global_state_root.value != 0,
                batch_inclusions@.len() == i,
                forall|j: int| 0 <= j < i ==> (#[trigger] a[j]).0 == global_state_root,
                seq_view(batch_inclusions@) =~= Seq::new(i as nat, |j: int| a[j].1),
            decreases inclusion_assignments@.len() - i,
        {
            if inclusion_assignments[i].global_state_root.value != global_state_root.value {
                proof {
                    assert(a.len() == inclusion_assignments@.len());
                    assert(a[i as int].0 != global_state_root);
                    assert(exists|k: int| 0 <= k < a.len() && a[k].0 != global_state_root);

                }
                return Err(TraceError::GlobalStateRootMismatch);
            }
            let ghost prev = batch_inclusions@;
            batch_inclusions.push(inclusion_assignments[i].assignment.copy());
            proof {
                let x = seq_view(batch_inclusions@);
                let y = Seq::new((i + 1) as nat, |j: int| a[j].1);
                assert forall|k: int| 0 <= k < i + 1 implies x[k] == y[k] by {
                    if k < i {
                        assert(batch_inclusions@[k] == prev[k]);
                        assert(seq_view(prev)[k] == Seq::new(i as nat, |j: int| a[j].1)[k]);
                    }
                }
                assert(x =~= y);
            }
            i = i + 1;
        }
        let mut proving_tasks = proving_tasks;
        let ghost before = tasks_view(proving_tasks@);
        if batch_inclusions.len() > 0 {
            let locator = Locator::new("inclusion.aleo".to_owned(), "state_path".to_owned());
            proving_tasks.push(
                TransitionTask {
                    locator,
                    proving_key: inclusion_proving_key,
                    assignments: batch_inclusions,
                },
            );
        }
        proof {
            assert(tasks_view(proving_tasks@) =~= batch_tasks(before, a, inclusion_proving_key));
        }
        Ok((global_state_root, proving_tasks))
    }

    /// The request that proves this trace's execution under `locator`.
    pub fn prove_execution(&self, locator: &str, inclusion_proving_key: ProvingKey) -> (r: Result<
        ProvingRequest,
        TraceError,
    >)
        requires
            self.wf(),
        ensures
            is_fee_trace(self@.transitions) ==> r == Err::<ProvingRequest, TraceError>(
                TraceError::NotExecution,
            ),
            !is_fee_trace(self@.transitions) && self@.inclusion_assignments is None ==> r == Err::<
                ProvingRequest,
                TraceError,
            >(TraceError::InclusionAssignmentsNotSet),
            !is_fee_trace(self@.transitions) && self@.inclusion_assignments is Some ==> proving_outcome(
                self@,
                locator@,
                inclusion_proving_key,
                r,
            ),
    {
        if self.is_fee() {
            return Err(TraceError::NotExecution);
        }
        let inclusion_assignments = match self.inclusion_assignments.get() {
            Some(a) => a,
            None => return Err(TraceError::InclusionAssignmentsNotSet),
        };
        let global_state_root = match self.global_state_root.get() {
            Some(root) => *root,
            None => return Err(TraceError::GlobalStateRootNotSet),
        };
        let tasks = copy_tasks(&self.transition_tasks);
        let (global_state_root, tasks) = match Self::prove_batch(
            tasks,
            inclusion_assignments,
            global_state_root,
            inclusion_proving_key,
        ) {
            Ok(batch) => batch,
            Err(e) => return Err(e),
        };
        Ok(
            ProvingRequest {
                label: locator.to_owned(),
                tasks,
                global_state_root,
                transitions: copy_transitions(&self.transitions),
            },
        )
    }

    /// The request that proves this fee trace.
    pub fn prove_fee(&self, inclusion_proving_key: ProvingKey) -> (r: Result<
        ProvingRequest,
        TraceError,
    >)
        requires
            self.wf(),
        ensures
            !is_fee_trace(self@.transitions) ==> r == Err::<ProvingRequest, TraceError>(
                TraceError::NotFee,
            ),
            is_fee_trace(self@.transitions) && self@.inclusion_assignments is None ==> r == Err::<
                ProvingRequest,
                TraceError,
            >(TraceError::InclusionAssignmentsNotSet),
            is_fee_trace(self@.transitions) && (self@.inclusion_assignments matches Some(a)
                && a.len() != 1) ==> r == Err::<ProvingRequest, TraceError>(
                TraceError::FeeInclusionCount,
            ),
            is_fee_trace(self@.transitions) && (self@.inclusion_assignments matches Some(a)
                && a.len() == 1) ==> proving_outcome(self@, fee_label(), inclusion_proving_key, r),
    {
        if !self.is_fee() {
            return Err(TraceError::NotFee);
        }
        let inclusion_assignments = match self.inclusion_assignments.get() {
            Some(a) => a,
            None => return Err(TraceError::InclusionAssignmentsNotSet),
        };
        if inclusion_assignments.len() != 1 {
            return Err(TraceError::FeeInclusionCount);
        }
        let global_state_root = match self.global_state_root.get() {
            Some(root) => *root,
            None => return Err(TraceError::GlobalStateRootNotSet),
        };
        if self.transitions.len() != 1 {
            return Err(TraceError::FeeTransitionCount);
        }
        let tasks = copy_tasks(&self.transition_tasks);
        let (global_state_root, tasks) = match Self::prove_batch(
            tasks,
            inclusion_assignments,
            global_state_root,
            inclusion_proving_key,
        ) {
            Ok(batch) => batch,
            Err(e) => return Err(e),
        };
        Ok(
            ProvingRequest {
                label: "credits.aleo/fee".to_owned(),
                tasks,
                global_state_root,
                transitions: copy_transitions(&self.transitions),
            },
        )
    }

    /// The request that verifies an execution's proof under `locator`, given
    /// the circuits' verifier inputs and the membership inputs for its root
    /// and transitions. The root's presence in the ledger is not checked here.
    pub fn verify_execution_proof(
        locator: &str,
        verifier_inputs: Vec<VerifierTask>,
        execution: &Execution,
        inclusion_inputs: Vec<Vec<Fp>>,
        inclusion_verifying_key: VerifyingKey,
    ) -> (r: Result<VerifyingRequest, TraceError>)
        ensures
            execution.proof is None ==> r == Err::<VerifyingRequest, TraceError>(
                TraceError::MissingProof,
            ),
            execution.proof matches Some(p) ==> (r matches Ok(req) && req@ == (
                locator@,
                verifier_tasks(
                    seq_view(verifier_inputs@),
                    seq_view(inclusion_inputs@),
                    inclusion_verifying_key,
                ),
                p@,
            )),
    {
        let carried = &execution.proof;
        match carried {
            None => Err(TraceError::MissingProof),
            Some(attached) => Ok(
                verify_batch(
                    locator,
                    verifier_inputs,
                    inclusion_inputs,
                    inclusion_verifying_key,
                    attached,
                ),
            ),
        }
    }

    /// The request that verifies a fee's proof, given the fee circuit's
    /// verifier inputs and the membership inputs. Refused before any
    /// verification when the root is zero, the proof is missing, or the
    /// transition does not hold exactly one record input.
    pub fn verify_fee_proof(
        verifier_inputs: VerifierTask,
        fee: &Fee,
        inclusion_inputs: Vec<Vec<Fp>>,
        inclusion_verifying_key: VerifyingKey,
    ) -> (r: Result<VerifyingRequest, TraceError>)
        ensures
            fee.global_state_root.value == 0 ==> r == Err::<VerifyingRequest, TraceError>(
                TraceError::ZeroGlobalStateRoot,
            ),
            fee.global_state_root.value != 0 && fee.proof is None ==> r == Err::<
                VerifyingRequest,
                TraceError,
            >(TraceError::MissingProof),
            fee.global_state_root.value != 0 && fee.proof is Some && record_count(
                fee.transition.inputs@,
            ) != 1 ==> r == Err::<VerifyingRequest, TraceError>(TraceError::FeeInputRecord),
            fee.global_state_root.value != 0 && record_count(fee.transition.inputs@) == 1 && (
            fee.proof matches Some(p)) ==> (r matches Ok(req) && req@ == (
                fee_label(),
                verifier_tasks(
                    seq![verifier_inputs@],
                    seq_view(inclusion_inputs@),
                    inclusion_verifying_key,
                ),
                fee.proof->Some_0@,
            )),
    {
        if fee.global_state_root.value == 0 {
            return Err(TraceError::ZeroGlobalStateRoot);
        }
        let carried = &fee.proof;
        let attached = match carried {
            Some(p) => p,
            None => return Err(TraceError::MissingProof),
        };
        if count_records(&fee.transition.inputs) != 1 {
            return Err(TraceError::FeeInputRecord);
        }
        let ghost task = verifier_inputs@;
        let mut tasks: Vec<VerifierTask> = Vec::new();
        tasks.push(verifier_inputs);
        proof {
            assert(seq_view(tasks@) =~= seq![task]);
        }
        Ok(
            verify_batch(
                "credits.aleo/fee",
                tasks,
                inclusion_inputs,
                inclusion_verifying_key,
                attached,
            ),
        )
    }

    /// The outcome of verifying an execution, from the key batch engine's answer.
    pub fn execution_verdict(verified: bool) -> (r: Result<(), TraceError>)
        ensures
            verified ==> r is Ok,
            !verified ==> r == Err::<(), TraceError>(TraceError::InvalidExecution),
    {
        if verified {
            Ok(())
        } else {
            Err(TraceError::InvalidExecution)
        }
    }

    /// The outcome of verifying a fee, from the key batch engine's answer.
    pub fn fee_verdict(verified: bool) -> (r: Result<(), TraceError>)
        ensures
            verified ==> r is Ok,
            !verified ==> r == Err::<(), TraceError>(TraceError::InvalidFee),
    {
        if verified {
            Ok(())
        } else {
            Err(TraceError::InvalidFee)
        }
    }
}

} // verus!

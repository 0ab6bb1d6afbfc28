//! The finite state machine that gates which inputs the wizard accepts.
//!
//! The legal `(State, InputKind) -> State` pairs are written out as one
//! exhaustive match (`next_state`); every pair not listed there is rejected.
//! Consuming an illegal input reports the rejection synchronously and leaves
//! the current state untouched.

use vstd::prelude::*;

verus! {

/// The states of the wizard.
///
/// `Initial` is the unique start state. `ReadyWithFile` is the
/// generation-enabled state; it carries a self-loop (printing a table of
/// contents), so it is not a dead end.
#[derive(Clone, Copy, Debug, PartialEq, Eq, Structural)]
pub enum State {
    Initial,
    ReadyBasic,
    AwaitingInputFileName,
    ReadyWithFile,
    AwaitingOutputFileName,
}

/// The events that can move the machine between states. Some of them carry
/// literal data (a file path) when they are recorded in the transition log.
#[derive(Clone, Copy, Debug, PartialEq, Eq, Structural)]
pub enum InputKind {
    Initialize,
    OpenFile,
    ObtainedFileName,
    PrintTableOfContents,
    ExportInAnotherFormat,
    ObtainedOutputFileName,
}

/// Consuming `input` from `state` was not legal. The machine reports the
/// rejection and stays where it was.
#[derive(Clone, Copy, Debug, PartialEq, Eq, Structural)]
pub enum TransitionError {
    Rejected { state: State, input: InputKind },
}

/// The static transition table: `Some(next)` exactly for the legal pairs.
pub open spec fn next_state(state: State, input: InputKind) -> Option<State> {
    match (state, input) {
        (State::Initial, InputKind::Initialize) => Some(State::ReadyBasic),
        (State::ReadyBasic, InputKind::OpenFile) => Some(State::AwaitingInputFileName),
        (State::AwaitingInputFileName, InputKind::ObtainedFileName) => Some(State::ReadyWithFile),
        (State::ReadyWithFile, InputKind::PrintTableOfContents) => Some(State::ReadyWithFile),
        (State::ReadyWithFile, InputKind::ExportInAnotherFormat) => Some(
            State::AwaitingOutputFileName,
        ),
        (State::AwaitingOutputFileName, InputKind::ObtainedOutputFileName) => Some(
            State::ReadyWithFile,
        ),
        _ => None,
    }
}

/// Batch run of the machine: fold `next_state` over a whole input sequence,
/// starting from `state`; `None` as soon as one input is rejected.
pub open spec fn run_inputs(state: State, inputs: Seq<InputKind>) -> Option<State>
    decreases inputs.len(),
{
    if inputs.len() == 0 {
        Some(state)
    } else {
        match next_state(state, inputs[0]) {
            Some(next) => run_inputs(next, inputs.drop_first()),
            None => None,
        }
    }
}

/// Appending one more input to a batch run steps the final state once.
pub proof fn lemma_run_inputs_push(state: State, inputs: Seq<InputKind>, input: InputKind)
    ensures
        run_inputs(state, inputs.push(input)) == (match run_inputs(state, inputs) {
            Some(last) => next_state(last, input),
            None => None::<State>,
        }),
    decreases inputs.len(),
{
    let extended = inputs.push(input);
    if inputs.len() == 0 {
        assert(extended[0] == input);
        assert(extended.drop_first() =~= Seq::<InputKind>::empty());
        match next_state(state, input) {
            Some(next) => {
                assert(run_inputs(state, extended) == run_inputs(next, extended.drop_first()));
                assert(run_inputs(next, Seq::<InputKind>::empty()) == Some(next));
            },
            None => {},
        }
    } else {
        assert(extended[0] == inputs[0]);
        assert(extended.drop_first() =~= inputs.drop_first().push(input));
        match next_state(state, inputs[0]) {
            Some(next) => {
                lemma_run_inputs_push(next, inputs.drop_first(), input);
            },
            None => {},
        }
    }
}

/// The machine has no dead end: every state has at least one outgoing
/// transition.
pub proof fn lemma_no_dead_ends(state: State)
    ensures
        exists|input: InputKind| (#[trigger] next_state(state, input)) is Some,
{
    match state {
        State::Initial => {
            assert(next_state(state, InputKind::Initialize) is Some);
        },
        State::ReadyBasic => {
            assert(next_state(state, InputKind::OpenFile) is Some);
        },
        State::AwaitingInputFileName => {
            assert(next_state(state, InputKind::ObtainedFileName) is Some);
        },
        State::ReadyWithFile => {
            assert(next_state(state, InputKind::PrintTableOfContents) is Some);
        },
        State::AwaitingOutputFileName => {
            assert(next_state(state, InputKind::ObtainedOutputFileName) is Some);
        },
    }
}

/// No state is unreachable: for every state there is an accepted input
/// sequence that leads the machine from `Initial` to it.
pub proof fn lemma_all_states_reachable(state: State)
    ensures
        exists|inputs: Seq<InputKind>| (#[trigger] run_inputs(State::Initial, inputs)) == Some(
            state,
        ),
{
    let to_ready_basic = Seq::<InputKind>::empty().push(InputKind::Initialize);
    let to_awaiting_input = to_ready_basic.push(InputKind::OpenFile);
    let to_ready_with_file = to_awaiting_input.push(InputKind::ObtainedFileName);
    let to_awaiting_output = to_ready_with_file.push(InputKind::ExportInAnotherFormat);
    assert(run_inputs(State::Initial, Seq::<InputKind>::empty()) == Some(State::Initial));
    lemma_run_inputs_push(State::Initial, Seq::<InputKind>::empty(), InputKind::Initialize);
    lemma_run_inputs_push(State::Initial, to_ready_basic, InputKind::OpenFile);
    lemma_run_inputs_push(State::Initial, to_awaiting_input, InputKind::ObtainedFileName);
    lemma_run_inputs_push(State::Initial, to_ready_with_file, InputKind::ExportInAnotherFormat);
    assert(run_inputs(State::Initial, to_ready_basic) == Some(State::ReadyBasic));
    assert(run_inputs(State::Initial, to_awaiting_input) == Some(State::AwaitingInputFileName));
    assert(run_inputs(State::Initial, to_ready_with_file) == Some(State::ReadyWithFile));
    assert(run_inputs(State::Initial, to_awaiting_output) == Some(State::AwaitingOutputFileName));
}

/// The state machine proper: the current state, advanced one consumed input
/// at a time.
pub struct StateMachine {
    state: State,
}

impl View for StateMachine {
    type V = State;

    closed spec fn view(&self) -> State {
        self.state
    }
}

impl StateMachine {
    /// A fresh machine sits in the unique start state.
    pub fn new() -> (machine: StateMachine)
        ensures
            machine@ == State::Initial,
    {
        StateMachine { state: State::Initial }
    }

    /// The current state.
    pub fn state(&self) -> (state: State)
        ensures
            state == self@,
    {
        self.state
    }

    /// Consume one input: on a legal pair, advance to and return the next
    /// state; on any other pair, fail with the rejected pair and leave the
    /// current state unchanged.
    pub fn consume(&mut self, input: InputKind) -> (result: Result<State, TransitionError>)
        ensures
            match next_state(old(self)@, input) {
                Some(next) => result == Ok::<State, TransitionError>(next) && final(self)@ == next,
                None => result == Err::<State, TransitionError>(
                    TransitionError::Rejected { state: old(self)@, input },
                ) && final(self)@ == old(self)@,
            },
    {
        let next = match (self.state, input) {
            (State::Initial, InputKind::Initialize) => Some(State::ReadyBasic),
            (State::ReadyBasic, InputKind::OpenFile) => Some(State::AwaitingInputFileName),
            (State::AwaitingInputFileName, InputKind::ObtainedFileName) => Some(
                State::ReadyWithFile,
            ),
            (State::ReadyWithFile, InputKind::PrintTableOfContents) => Some(State::ReadyWithFile),
            (State::ReadyWithFile, InputKind::ExportInAnotherFormat) => Some(
                State::AwaitingOutputFileName,
            ),
            (State::AwaitingOutputFileName, InputKind::ObtainedOutputFileName) => Some(
                State::ReadyWithFile,
            ),
            _ => None,
        };
        match next {
            Some(next) => {
                self.state = next;
                Ok(next)
            },
            None => Err(TransitionError::Rejected { state: self.state, input }),
        }
    }

    /// The inputs that are legal from the current state, in declaration
    /// order: exactly those that `consume` would accept right now.
    pub fn legal_inputs(&self) -> (legal: Vec<InputKind>)
        ensures
            forall|i: int|
                0 <= i < legal@.len() ==> next_state(self@, #[trigger] legal@[i]) is Some,
            forall|input: InputKind|
                next_state(self@, input) is Some ==> legal@.contains(input),
            legal@.no_duplicates(),
    {
        let mut legal: Vec<InputKind> = Vec::new();
        match self.state {
            State::Initial => {
                legal.push(InputKind::Initialize);
            },
            State::ReadyBasic => {
                legal.push(InputKind::OpenFile);
            },
            State::AwaitingInputFileName => {
                legal.push(InputKind::ObtainedFileName);
            },
            State::ReadyWithFile => {
                legal.push(InputKind::PrintTableOfContents);
                legal.push(InputKind::ExportInAnotherFormat);
            },
            State::AwaitingOutputFileName => {
                legal.push(InputKind::ObtainedOutputFileName);
            },
        }
        proof {
            assert forall|input: InputKind| next_state(self@, input) is Some implies legal@.contains(
                input,
            ) by {
                assert(input == InputKind::Initialize || input == InputKind::OpenFile || input
                    == InputKind::ObtainedFileName || input == InputKind::PrintTableOfContents
                    || input == InputKind::ExportInAnotherFormat || input
                    == InputKind::ObtainedOutputFileName);
                if self.state is Initial {
                    assert(legal@[0] == InputKind::Initialize);
                }
                if self.state is ReadyBasic {
                    assert(legal@[0] == InputKind::OpenFile);
                }
                if self.state is AwaitingInputFileName {
                    assert(legal@[0] == InputKind::ObtainedFileName);
                }
                if self.state is ReadyWithFile {
                    assert(legal@[0] == InputKind::PrintTableOfContents);
                    assert(legal@[1] == InputKind::ExportInAnotherFormat);
                }
                if self.state is AwaitingOutputFileName {
                    assert(legal@[0] == InputKind::ObtainedOutputFileName);
                }
            }
        }
        legal
    }
}

/// Replaying `consume` over a whole input sequence, one call at a time,
/// reaches exactly the state that the single batch computation `run_inputs`
/// yields, and succeeds exactly when the batch computation does: the machine
/// is deterministic. On a rejected sequence the reported error is the first
/// illegal step: the state reached by the accepted prefix, and the input
/// that was not legal from it.
pub fn replay(inputs: &Vec<InputKind>) -> (result: Result<State, TransitionError>)
    ensures
        match run_inputs(State::Initial, inputs@) {
            Some(last) => result matches Ok(state) && state == last,
            None => result matches Err(TransitionError::Rejected { state, input })
                && (exists|i: int|
                {
                    &&& 0 <= i < inputs@.len()
                    &&& run_inputs(State::Initial, inputs@.take(i)) == Some(state)
                    &&& input == inputs@[i]
                    &&& next_state(state, input) is None
                }),
        },
{
    let mut machine = StateMachine::new();
    let mut i: usize = 0;
    proof {
        assert(inputs@.skip(0) =~= inputs@);
        assert(inputs@.take(0) =~= Seq::<InputKind>::empty());
    }
    while i < inputs.len()
        invariant
            i <= inputs@.len(),
            run_inputs(State::Initial, inputs@) == run_inputs(machine@, inputs@.skip(i as int)),
            run_inputs(State::Initial, inputs@.take(i as int)) == Some(machine@),
        decreases inputs@.len() - i,
    {
        let ghost reached = machine@;
        let step = machine.consume(inputs[i]);
        proof {
            assert(inputs@.skip(i as int)[0] == inputs@[i as int]);
            assert(inputs@.skip(i as int).drop_first() =~= inputs@.skip(i as int + 1));
            assert(inputs@.take(i as int + 1) =~= inputs@.take(i as int).push(inputs@[i as int]));
            lemma_run_inputs_push(State::Initial, inputs@.take(i as int), inputs@[i as int]);
        }
        match step {
            Ok(_) => {},
            Err(error) => {
                proof {
                    assert({
                        &&& 0 <= i < inputs@.len()
                        &&& run_inputs(State::Initial, inputs@.take(i as int)) == Some(reached)
                        &&& next_state(reached, inputs@[i as int]) is None
                    });
                }
                return Err(error);
            },
        }
        i = i + 1;
    }
    proof {
        assert(inputs@.skip(inputs@.len() as int) =~= Seq::<InputKind>::empty());
    }
    Ok(machine.state())
}

} // verus!

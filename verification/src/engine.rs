//! The composition engine: an append-only transition log, gated by the state
//! machine, folded deterministically into the generated text.
//!
//! Rendering is a pure fold over the log: the initializing entry installs
//! the base template, marker entries leave the buffer unchanged, and
//! data-carrying entries splice a snippet into the earliest `%placeholder%`
//! slot and then substitute their literal data for the snippet's data token.
//! A final pass deletes every `%placeholder%` still left. The result is a
//! function of the log and the snippet table alone, so rendering twice
//! without an intervening transition yields identical text.

use crate::fsm::InputKind;
use crate::fsm::State;
use crate::fsm::StateMachine;
use crate::fsm::TransitionError;
use crate::fsm::lemma_run_inputs_push;
use crate::fsm::next_state;
use crate::fsm::run_inputs;
use crate::snippets::Snippets;
use crate::snippets::SnippetsView;
use crate::snippets::devtools_snippets;
use crate::text::find_first;
use crate::text::lemma_first_match_occurs;
use crate::text::occurs;
use crate::text::remove_all;
use crate::text::replace_first;
use crate::text::spec_remove_all;
use crate::text::spec_replace_first;
use vstd::prelude::*;

verus! {

/// The slot token: where a later snippet may be spliced in.
pub const PLACEHOLDER_TOKEN: &'static str = "%placeholder%";

/// The data token resolved by an obtained input file name.
pub const FILE_NAME_TOKEN: &'static str = "%file_name%";

/// The data token resolved by an obtained output file name.
pub const OUTPUT_FILE_NAME_TOKEN: &'static str = "%output_file_name%";

/// The three tokens are non-empty, so first-occurrence search is defined on
/// them.
pub proof fn lemma_tokens_nonempty()
    ensures
        1 <= PLACEHOLDER_TOKEN@.len(),
        1 <= FILE_NAME_TOKEN@.len(),
        1 <= OUTPUT_FILE_NAME_TOKEN@.len(),
{
    reveal_strlit("%placeholder%");
    reveal_strlit("%file_name%");
    reveal_strlit("%output_file_name%");
}

/// One accepted state-machine step, paired with the literal data it carries.
/// `associated_string` is empty unless the kind carries a value (a file
/// path). Transitions are produced only by a successful consumption — the
/// engine appends them, never edits them.
pub struct Transition {
    pub kind: InputKind,
    pub associated_string: String,
}

/// The mathematical content of a transition: its kind and its data text.
pub struct TransitionView {
    pub kind: InputKind,
    pub data: Seq<char>,
}

impl View for Transition {
    type V = TransitionView;

    open spec fn view(&self) -> TransitionView {
        TransitionView { kind: self.kind, data: self.associated_string@ }
    }
}

/// The content of a whole log, in order.
pub open spec fn log_view(transitions: Seq<Transition>) -> Seq<TransitionView> {
    transitions.map_values(|t: Transition| t@)
}

/// The kinds of a log's entries, in order: what the state machine sees.
pub open spec fn kinds_of(log: Seq<TransitionView>) -> Seq<InputKind> {
    log.map_values(|t: TransitionView| t.kind)
}

/// The rule of one transition applied to the running buffer: install the
/// base template, leave the buffer unchanged (a pure marker), or splice a
/// snippet into the first `%placeholder%` and substitute the entry's data
/// for the snippet's data token.
pub open spec fn apply_transition_spec(
    buffer: Seq<char>,
    transition: TransitionView,
    table: SnippetsView,
) -> Seq<char> {
    match transition.kind {
        InputKind::Initialize => table.initial,
        InputKind::OpenFile => buffer,
        InputKind::ExportInAnotherFormat => buffer,
        InputKind::ObtainedFileName => spec_replace_first(
            spec_replace_first(buffer, PLACEHOLDER_TOKEN@, table.open_file),
            FILE_NAME_TOKEN@,
            transition.data,
        ),
        InputKind::PrintTableOfContents => spec_replace_first(
            buffer,
            PLACEHOLDER_TOKEN@,
            table.print_table_of_contents,
        ),
        InputKind::ObtainedOutputFileName => spec_replace_first(
            spec_replace_first(buffer, PLACEHOLDER_TOKEN@, table.export_in_another_format),
            OUTPUT_FILE_NAME_TOKEN@,
            transition.data,
        ),
    }
}

/// The fold of a whole log, in order, starting from the empty buffer.
pub open spec fn fold_transitions_spec(log: Seq<TransitionView>, table: SnippetsView) -> Seq<char>
    decreases log.len(),
{
    if log.len() == 0 {
        Seq::empty()
    } else {
        apply_transition_spec(fold_transitions_spec(log.drop_last(), table), log.last(), table)
    }
}

/// The generated artifact: the fold of the log, with every residual
/// `%placeholder%` deleted by the final pass.
pub open spec fn render_spec(log: Seq<TransitionView>, table: SnippetsView) -> Seq<char> {
    spec_remove_all(fold_transitions_spec(log, table), PLACEHOLDER_TOKEN@)
}

/// A pure marker appended to the log — the user has requested an action,
/// but the resulting text only appears once the follow-up data arrives —
/// leaves the folded text unchanged.
pub proof fn lemma_marker_has_no_textual_effect(
    log: Seq<TransitionView>,
    marker: TransitionView,
    table: SnippetsView,
)
    requires
        marker.kind == InputKind::OpenFile || marker.kind == InputKind::ExportInAnotherFormat,
    ensures
        fold_transitions_spec(log.push(marker), table) == fold_transitions_spec(log, table),
        render_spec(log.push(marker), table) == render_spec(log, table),
{
    assert(log.push(marker).drop_last() =~= log);
}

/// A data-substitution token survived to the final pass: the log and the
/// snippet table do not fit together. A programmer-level defect, not a
/// runtime condition to recover from.
#[derive(Clone, Copy, Debug, PartialEq, Eq, Structural)]
pub enum RenderError {
    UnresolvedDataToken,
}

/// Fold `transitions` over `snippets`, without the final pass.
pub fn fold_transitions(transitions: &Vec<Transition>, snippets: &Snippets) -> (buffer: String)
    ensures
        buffer@ == fold_transitions_spec(log_view(transitions@), snippets@),
{
    proof {
        lemma_tokens_nonempty();
    }
    let mut buffer = String::new();
    let mut i: usize = 0;
    proof {
        assert(log_view(transitions@).take(0) =~= Seq::<TransitionView>::empty());
    }
    while i < transitions.len()
        invariant
            i <= transitions@.len(),
            1 <= PLACEHOLDER_TOKEN@.len(),
            1 <= FILE_NAME_TOKEN@.len(),
            1 <= OUTPUT_FILE_NAME_TOKEN@.len(),
            buffer@ == fold_transitions_spec(log_view(transitions@).take(i as int), snippets@),
        decreases transitions@.len() - i,
    {
        let transition = &transitions[i];
        buffer = match transition.kind {
            InputKind::Initialize => snippets.initial.clone(),
            InputKind::OpenFile => buffer,
            InputKind::ExportInAnotherFormat => buffer,
            InputKind::ObtainedFileName => {
                let spliced = replace_first(
                    buffer.as_str(),
                    PLACEHOLDER_TOKEN,
                    snippets.open_file.as_str(),
                );
                replace_first(spliced.as_str(), FILE_NAME_TOKEN, transition.associated_string.as_str())
            },
            InputKind::PrintTableOfContents => replace_first(
                buffer.as_str(),
                PLACEHOLDER_TOKEN,
                snippets.print_table_of_contents.as_str(),
            ),
            InputKind::ObtainedOutputFileName => {
                let spliced = replace_first(
                    buffer.as_str(),
                    PLACEHOLDER_TOKEN,
                    snippets.export_in_another_format.as_str(),
                );
                replace_first(
                    spliced.as_str(),
                    OUTPUT_FILE_NAME_TOKEN,
                    transition.associated_string.as_str(),
                )
            },
        };
        proof {
            assert(log_view(transitions@).take(i + 1).drop_last() =~= log_view(
                transitions@,
            ).take(i as int));
            assert(log_view(transitions@).take(i + 1).last() == transitions@[i as int]@);
        }
        i = i + 1;
    }
    proof {
        assert(log_view(transitions@).take(transitions@.len() as int) =~= log_view(transitions@));
    }
    buffer
}

/// Render the generated artifact for a log and a snippet table: fold the
/// log in order, then delete every residual `%placeholder%`. The result is
/// a function of the log and table contents alone, with no `%placeholder%`
/// left in it.
pub fn render(transitions: &Vec<Transition>, snippets: &Snippets) -> (artifact: String)
    ensures
        artifact@ == render_spec(log_view(transitions@), snippets@),
        !occurs(artifact@, PLACEHOLDER_TOKEN@),
{
    proof {
        lemma_tokens_nonempty();
    }
    let buffer = fold_transitions(transitions, snippets);
    remove_all(buffer.as_str(), PLACEHOLDER_TOKEN)
}

/// Render, then check that no data-substitution token survived the fold:
/// `Ok` with the artifact exactly when both data tokens are fully resolved,
/// `Err(UnresolvedDataToken)` exactly when one survives.
pub fn render_checked(transitions: &Vec<Transition>, snippets: &Snippets) -> (result: Result<
    String,
    RenderError,
>)
    ensures
        match result {
            Ok(artifact) => {
                &&& artifact@ == render_spec(log_view(transitions@), snippets@)
                &&& !occurs(artifact@, PLACEHOLDER_TOKEN@)
                &&& !occurs(artifact@, FILE_NAME_TOKEN@)
                &&& !occurs(artifact@, OUTPUT_FILE_NAME_TOKEN@)
            },
            Err(error) => {
                &&& error == RenderError::UnresolvedDataToken
                &&& (occurs(render_spec(log_view(transitions@), snippets@), FILE_NAME_TOKEN@)
                    || occurs(
                    render_spec(log_view(transitions@), snippets@),
                    OUTPUT_FILE_NAME_TOKEN@,
                ))
            },
        },
{
    proof {
        lemma_tokens_nonempty();
    }
    let artifact = render(transitions, snippets);
    proof {
        lemma_first_match_occurs(artifact@, FILE_NAME_TOKEN@);
        lemma_first_match_occurs(artifact@, OUTPUT_FILE_NAME_TOKEN@);
    }
    if find_first(artifact.as_str(), FILE_NAME_TOKEN).is_some() {
        return Err(RenderError::UnresolvedDataToken);
    }
    if find_first(artifact.as_str(), OUTPUT_FILE_NAME_TOKEN).is_some() {
        return Err(RenderError::UnresolvedDataToken);
    }
    Ok(artifact)
}

/// The engine instance: the snippet table, the state machine, and the
/// transition log it owns. The log is append-only and only grows through
/// `try_advance`, so it is always exactly the accepted history of the
/// machine.
pub struct DevToolsApplication {
    transitions: Vec<Transition>,
    snippets: Snippets,
    states: StateMachine,
}

impl DevToolsApplication {
    /// The log's content, in order.
    pub closed spec fn log(&self) -> Seq<TransitionView> {
        log_view(self.transitions@)
    }

    /// The snippet table's content.
    pub closed spec fn table(&self) -> SnippetsView {
        self.snippets@
    }

    /// The machine's current state.
    pub closed spec fn state(&self) -> State {
        self.states@
    }

    /// The engine's invariant: the log starts with the initializing entry,
    /// replaying its kinds from `Initial` is accepted and ends in the
    /// current state, and the table is the variant's own.
    pub closed spec fn wf(&self) -> bool {
        &&& 1 <= self.log().len()
        &&& self.log()[0] == (TransitionView { kind: InputKind::Initialize, data: Seq::empty() })
        &&& run_inputs(State::Initial, kinds_of(self.log())) == Some(self.state())
        &&& self.table() == devtools_snippets()
    }

    /// A fresh engine: the log holds exactly the implicit initializing
    /// entry, and the machine has consumed it.
    pub fn new() -> (app: DevToolsApplication)
        ensures
            app.wf(),
            app.log() == seq![
                (TransitionView { kind: InputKind::Initialize, data: Seq::empty() }),
            ],
            app.state() == State::ReadyBasic,
            app.table() == devtools_snippets(),
    {
        let mut states = StateMachine::new();
        let _accepted = states.consume(InputKind::Initialize);
        let transitions = vec![
            Transition { kind: InputKind::Initialize, associated_string: String::new() },
        ];
        let app = DevToolsApplication { transitions, snippets: Snippets::new(), states };
        proof {
            assert(app.log() =~= seq![
                (TransitionView { kind: InputKind::Initialize, data: Seq::<char>::empty() }),
            ]);
            let kinds = kinds_of(app.log());
            assert(kinds =~= seq![InputKind::Initialize]);
            assert(kinds.drop_first() =~= Seq::<InputKind>::empty());
            assert(run_inputs(State::ReadyBasic, kinds.drop_first()) == Some(State::ReadyBasic));
            assert(run_inputs(State::Initial, kinds) == Some(State::ReadyBasic));
        }
        app
    }

    /// The machine's current state.
    pub fn current_state(&self) -> (state: State)
        ensures
            state == self.state(),
    {
        self.states.state()
    }

    /// Read access to the log: an ordered, immutable view.
    pub fn transitions(&self) -> (log: &Vec<Transition>)
        ensures
            log_view(log@) == self.log(),
    {
        &self.transitions
    }

    /// The inputs that `try_advance` would accept right now.
    pub fn legal_inputs(&self) -> (legal: Vec<InputKind>)
        ensures
            forall|i: int|
                0 <= i < legal@.len() ==> next_state(self.state(), #[trigger] legal@[i]) is Some,
            forall|input: InputKind|
                next_state(self.state(), input) is Some ==> legal@.contains(input),
    {
        self.states.legal_inputs()
    }

    /// Consume one input and record it, atomically: on a legal pair the
    /// machine advances and the transition (with its data) is appended to
    /// the log; on any other pair the rejection is returned and neither the
    /// machine nor the log changes. Recording is thereby conditioned on
    /// acceptance, so the log never desynchronizes from the machine.
    pub fn try_advance(&mut self, kind: InputKind, data: String) -> (result: Result<
        State,
        TransitionError,
    >)
        requires
            old(self).wf(),
        ensures
            final(self).wf(),
            final(self).table() == old(self).table(),
            match next_state(old(self).state(), kind) {
                Some(next) => {
                    &&& result == Ok::<State, TransitionError>(next)
                    &&& final(self).state() == next
                    &&& final(self).log() == old(self).log().push(
                        TransitionView { kind, data: data@ },
                    )
                },
                None => {
                    &&& result == Err::<State, TransitionError>(
                        TransitionError::Rejected { state: old(self).state(), input: kind },
                    )
                    &&& final(self).state() == old(self).state()
                    &&& final(self).log() == old(self).log()
                },
            },
    {
        let step = self.states.consume(kind);
        match step {
            Ok(next) => {
                proof {
                    lemma_run_inputs_push(State::Initial, kinds_of(self.log()), kind);
                }
                let ghost old_log = self.log();
                self.transitions.push(Transition { kind, associated_string: data });
                proof {
                    assert(self.log() =~= old_log.push(TransitionView { kind, data: data@ }));
                    assert(kinds_of(self.log()) =~= kinds_of(old_log).push(kind));
                }
                Ok(next)
            },
            Err(error) => Err(error),
        }
    }

    /// The fold of `transitions` over this engine's snippet table, without
    /// the final pass.
    pub fn apply_transitions(&self, transitions: &Vec<Transition>) -> (buffer: String)
        ensures
            buffer@ == fold_transitions_spec(log_view(transitions@), self.table()),
    {
        fold_transitions(transitions, &self.snippets)
    }

    /// One data-file splice: `resulting_string` with its first
    /// `%placeholder%` replaced by the open-file snippet, and the snippet's
    /// `%file_name%` token replaced by `file_name`, verbatim.
    pub fn apply_open_file(&self, resulting_string: &String, file_name: &String) -> (result: String)
        ensures
            result@ == spec_replace_first(
                spec_replace_first(resulting_string@, PLACEHOLDER_TOKEN@, self.table().open_file),
                FILE_NAME_TOKEN@,
                file_name@,
            ),
    {
        proof {
            lemma_tokens_nonempty();
        }
        let spliced = replace_first(
            resulting_string.as_str(),
            PLACEHOLDER_TOKEN,
            self.snippets.open_file.as_str(),
        );
        replace_first(spliced.as_str(), FILE_NAME_TOKEN, file_name.as_str())
    }

    /// The generated artifact of the engine's own log: the fold of the log,
    /// with every residual `%placeholder%` deleted.
    pub fn get_file_content(&self) -> (artifact: String)
        ensures
            artifact@ == render_spec(self.log(), self.table()),
            !occurs(artifact@, PLACEHOLDER_TOKEN@),
    {
        render(&self.transitions, &self.snippets)
    }
}

} // verus!

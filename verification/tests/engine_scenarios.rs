use training_wheels::engine::{
    DevToolsApplication, RenderError, Transition, render, render_checked,
};
use training_wheels::fsm::{InputKind, State, TransitionError};
use training_wheels::snippets::{INITIAL_TEMPLATE, Snippets};

fn transition(kind: InputKind, data: &str) -> Transition {
    Transition {
        kind,
        associated_string: data.to_string(),
    }
}

#[test]
fn minimal_log_renders_the_bare_base_template() {
    let log = vec![transition(InputKind::Initialize, "")];
    let artifact = render(&log, &Snippets::new());
    assert_eq!(artifact, INITIAL_TEMPLATE.replace("%placeholder%", ""));
}

#[test]
fn empty_log_renders_empty_text() {
    let artifact = render(&Vec::new(), &Snippets::new());
    assert_eq!(artifact, "");
}

#[test]
fn open_file_scenario_resolves_the_file_name_once() {
    let log = vec![
        transition(InputKind::Initialize, ""),
        transition(InputKind::ObtainedFileName, "foo.ext"),
    ];
    let artifact = render(&log, &Snippets::new());
    assert_eq!(artifact.matches("foo.ext").count(), 1);
    assert_eq!(artifact.matches("%placeholder%").count(), 0);
    assert_eq!(artifact.matches("%file_name%").count(), 0);
}

#[test]
fn marker_transitions_leave_the_text_unchanged() {
    let plain = vec![
        transition(InputKind::Initialize, ""),
        transition(InputKind::ObtainedFileName, "foo.ext"),
    ];
    let with_markers = vec![
        transition(InputKind::Initialize, ""),
        transition(InputKind::OpenFile, ""),
        transition(InputKind::ObtainedFileName, "foo.ext"),
        transition(InputKind::ExportInAnotherFormat, ""),
    ];
    let snippets = Snippets::new();
    assert_eq!(render(&plain, &snippets), render(&with_markers, &snippets));
}

#[test]
fn table_of_contents_then_export_scenario_orders_the_fragments() {
    let log = vec![
        transition(InputKind::Initialize, ""),
        transition(InputKind::ObtainedFileName, "in.ext"),
        transition(InputKind::PrintTableOfContents, ""),
        transition(InputKind::ObtainedOutputFileName, "out.ext"),
    ];
    let artifact = render(&log, &Snippets::new());

    let open_file_mark = "vdm_DataFunOpen(libraryFunctions";
    let toc_mark = "vdm_LManTOC";
    let export_mark = "vdm_LManSaveModel";
    assert_eq!(artifact.matches(open_file_mark).count(), 1);
    assert_eq!(artifact.matches(toc_mark).count(), 1);
    assert_eq!(artifact.matches(export_mark).count(), 1);

    let open_file_at = artifact.find(open_file_mark).unwrap();
    let toc_at = artifact.find(toc_mark).unwrap();
    let export_at = artifact.find(export_mark).unwrap();
    assert!(open_file_at < toc_at);
    assert!(toc_at < export_at);

    assert_eq!(artifact.matches("in.ext").count(), 1);
    assert_eq!(artifact.matches("out.ext").count(), 1);
    assert_eq!(artifact.matches("%placeholder%").count(), 0);
}

#[test]
fn render_is_idempotent_without_intervening_mutation() {
    let log = vec![
        transition(InputKind::Initialize, ""),
        transition(InputKind::ObtainedFileName, "foo.ext"),
        transition(InputKind::PrintTableOfContents, ""),
    ];
    let snippets = Snippets::new();
    assert_eq!(render(&log, &snippets), render(&log, &snippets));

    let app = DevToolsApplication::new();
    assert_eq!(app.get_file_content(), app.get_file_content());
}

#[test]
fn render_checked_accepts_a_fully_resolved_log() {
    let log = vec![
        transition(InputKind::Initialize, ""),
        transition(InputKind::ObtainedFileName, "foo.ext"),
    ];
    let snippets = Snippets::new();
    let artifact = render_checked(&log, &snippets).unwrap();
    assert_eq!(artifact, render(&log, &snippets));
}

#[test]
fn render_checked_reports_a_surviving_data_token() {
    let log = vec![
        transition(InputKind::Initialize, ""),
        transition(InputKind::ObtainedFileName, "%file_name%"),
    ];
    assert_eq!(
        render_checked(&log, &Snippets::new()),
        Err(RenderError::UnresolvedDataToken)
    );
}

#[test]
fn fresh_engine_holds_only_the_initializing_entry() {
    let app = DevToolsApplication::new();
    assert_eq!(app.current_state(), State::ReadyBasic);
    let log = app.transitions();
    assert_eq!(log.len(), 1);
    assert_eq!(log[0].kind, InputKind::Initialize);
    assert_eq!(log[0].associated_string, "");
}

#[test]
fn try_advance_appends_exactly_on_acceptance() {
    let mut app = DevToolsApplication::new();

    assert_eq!(
        app.try_advance(InputKind::Initialize, String::new()),
        Err(TransitionError::Rejected {
            state: State::ReadyBasic,
            input: InputKind::Initialize,
        })
    );
    assert_eq!(app.current_state(), State::ReadyBasic);
    assert_eq!(app.transitions().len(), 1);

    assert_eq!(
        app.try_advance(InputKind::OpenFile, String::new()),
        Ok(State::AwaitingInputFileName)
    );
    assert_eq!(
        app.try_advance(InputKind::ObtainedFileName, "file_1.t16".to_string()),
        Ok(State::ReadyWithFile)
    );
    assert_eq!(app.transitions().len(), 3);
    assert_eq!(app.transitions()[2].associated_string, "file_1.t16");
}

#[test]
fn engine_renders_its_own_accepted_history() {
    let mut app = DevToolsApplication::new();
    app.try_advance(InputKind::OpenFile, String::new()).unwrap();
    app.try_advance(InputKind::ObtainedFileName, "file_1.t16".to_string())
        .unwrap();
    app.try_advance(InputKind::PrintTableOfContents, String::new())
        .unwrap();

    let artifact = app.get_file_content();
    assert_eq!(artifact.matches("file_1.t16").count(), 1);
    assert_eq!(artifact.matches("vdm_LManTOC").count(), 1);
    assert_eq!(artifact.matches("%placeholder%").count(), 0);
    assert_eq!(artifact.matches("%file_name%").count(), 0);

    assert_eq!(artifact, render(app.transitions(), &Snippets::new()));
}

#[test]
fn apply_transitions_folds_without_the_final_pass() {
    let app = DevToolsApplication::new();
    let log = vec![transition(InputKind::Initialize, "")];
    assert_eq!(app.apply_transitions(&log), INITIAL_TEMPLATE);
}

#[test]
fn apply_open_file_splices_snippet_then_file_name() {
    let app = DevToolsApplication::new();
    let buffer = "head %placeholder% tail".to_string();
    let spliced = app.apply_open_file(&buffer, &"data.t16".to_string());
    assert_eq!(spliced.matches("data.t16").count(), 1);
    assert_eq!(spliced.matches("%file_name%").count(), 0);
    assert!(spliced.starts_with("head "));
    assert!(spliced.ends_with(" tail"));
    assert_eq!(spliced.matches("vdm_DataFunOpen(libraryFunctions").count(), 1);
}

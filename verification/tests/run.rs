use bindgen::run::{has_errors, react, Action, Event};

#[test]
fn errors_are_told_from_warnings() {
    assert!(!has_errors(&vec![]));
    assert!(!has_errors(&vec![0, 1, 2]));
    assert!(has_errors(&vec![0, 3, 2]));
    assert!(has_errors(&vec![4]));
}

#[test]
fn a_run_without_errors_writes_bindings() {
    assert_eq!(react(Event::LineRead), Action::CreateIndex);
    assert_eq!(react(Event::IndexCreated(true)), Action::ParseUnit);
    assert_eq!(react(Event::UnitParsed(true)), Action::ShowDiagnostics);
    assert_eq!(react(Event::Diagnosed(vec![1, 2])), Action::VisitUnit);
    assert_eq!(react(Event::Visited), Action::WriteBindings);
    assert_eq!(react(Event::Written), Action::Dispose);
}

#[test]
fn an_error_among_the_diagnostics_ends_the_run() {
    assert_eq!(react(Event::Diagnosed(vec![2, 4, 0])), Action::End);
}

#[test]
fn failures_have_their_messages() {
    assert_eq!(
        react(Event::LineRefused("no permission".to_string())),
        Action::Fail("no permission".to_string())
    );
    assert_eq!(
        react(Event::IndexCreated(false)),
        Action::Fail("clang failed to create index".to_string())
    );
    assert_eq!(
        react(Event::UnitParsed(false)),
        Action::Fail("No input files given".to_string())
    );
}

#[test]
fn help_is_given() {
    assert_eq!(react(Event::HelpAsked), Action::PrintUsage);
}
